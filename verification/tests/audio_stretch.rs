use hypehouse_engine::audio::pitch_tempo::{
    clamp_pitch_semitones, clamp_tempo_ratio, join_frames, kept_frames, pass_through, second_frames, second_part,
    split_chunk, PitchTempo, ProcessStep, Route, CHUNK_FRAMES, MAX_PITCH_BITS, MAX_TEMPO_BITS, MIN_PITCH_BITS, MIN_TEMPO_BITS,
    SCRATCH_CAPACITY,
};
use hypehouse_engine::audio::wsola::{
    Wsola, DEFAULT_HOP_OUT, DEFAULT_SEARCH_RANGE, DEFAULT_WINDOW_SIZE, RING_LEN,
};
use hypehouse_engine::f32_bits::F32Bits;
use hypehouse_engine::state::DeckId;

fn f(x: f32) -> F32Bits {
    F32Bits { bits: x.to_bits() }
}

fn g(x: F32Bits) -> f32 {
    f32::from_bits(x.bits)
}

fn numbers(from: usize, n: usize) -> Vec<F32Bits> {
    (from..from + n).map(|i| f(i as f32)).collect()
}

const MIN_TEMPO_RATIO: f32 = 0.5;
const MAX_TEMPO_RATIO: f32 = 2.0;
const MIN_PITCH_SEMITONES: f32 = -12.0;
const MAX_PITCH_SEMITONES: f32 = 12.0;

#[test]
fn clamp_tempo_ratio_clamps_and_rejects_nan() {
    let clamp = |x: f32| g(clamp_tempo_ratio(f(x)));
    assert_eq!(clamp(0.1), MIN_TEMPO_RATIO);
    assert_eq!(clamp(5.0), MAX_TEMPO_RATIO);
    assert_eq!(clamp(1.25), 1.25);
    assert_eq!(clamp(f32::NAN), 1.0);
    assert_eq!(clamp(f32::INFINITY), 1.0);
    assert_eq!(f32::from_bits(MIN_TEMPO_BITS), MIN_TEMPO_RATIO);
    assert_eq!(f32::from_bits(MAX_TEMPO_BITS), MAX_TEMPO_RATIO);
}

#[test]
fn clamp_pitch_clamps_and_rejects_nan() {
    let clamp = |x: f32| g(clamp_pitch_semitones(f(x)));
    assert_eq!(clamp(-20.0), MIN_PITCH_SEMITONES);
    assert_eq!(clamp(100.0), MAX_PITCH_SEMITONES);
    assert_eq!(clamp(3.0), 3.0);
    assert_eq!(clamp(f32::NAN), 0.0);
    assert_eq!(f32::from_bits(MIN_PITCH_BITS), MIN_PITCH_SEMITONES);
    assert_eq!(f32::from_bits(MAX_PITCH_BITS), MAX_PITCH_SEMITONES);
}

#[test]
fn defaults_use_bypass_path() {
    let pt = PitchTempo::new(DeckId::A);
    assert!(
        pt.is_bypass(),
        "fresh PitchTempo with default knobs must take the bypass path"
    );
    assert!((g(pt.tempo_ratio()) - 1.0).abs() < f32::EPSILON);
    assert!(g(pt.pitch_semitones()).abs() < f32::EPSILON);
    assert_eq!(pt.route(), Route::Bypass);
}

#[test]
fn bypass_path_copies_input_verbatim() {
    let input = numbers(1, 512);
    let mut output = vec![f(0.0); 512];
    let n = pass_through(&input, &mut output);
    assert_eq!(n, 512, "bypass should write full input length");
    assert_eq!(output, input);
    let mut short = vec![f(0.0); 3];
    assert_eq!(pass_through(&input, &mut short), 3);
    let mut long = vec![f(-1.0); 513];
    assert_eq!(pass_through(&input, &mut long), 512);
    assert_eq!(long[512], f(-1.0));
}

#[test]
fn set_tempo_ratio_clamps_and_caches() {
    let mut pt = PitchTempo::new(DeckId::A);
    pt.set_tempo_ratio(f(100.0));
    assert_eq!(g(pt.tempo_ratio()), MAX_TEMPO_RATIO);
    pt.set_tempo_ratio(f(0.0));
    assert_eq!(g(pt.tempo_ratio()), MIN_TEMPO_RATIO);
    pt.set_tempo_ratio(f(1.05));
    assert!((g(pt.tempo_ratio()) - 1.05).abs() < 1e-6);
}

#[test]
fn set_pitch_semitones_clamps_and_caches() {
    let mut pt = PitchTempo::new(DeckId::A);
    pt.set_pitch_semitones(f(50.0));
    assert_eq!(g(pt.pitch_semitones()), MAX_PITCH_SEMITONES);
    pt.set_pitch_semitones(f(-50.0));
    assert_eq!(g(pt.pitch_semitones()), MIN_PITCH_SEMITONES);
    pt.set_pitch_semitones(f(0.5));
    assert!((g(pt.pitch_semitones()) - 0.5).abs() < 1e-6);
}

#[test]
fn reset_returns_to_bypass() {
    let mut pt = PitchTempo::new(DeckId::A);
    pt.set_pitch_semitones(f(7.0));
    pt.set_tempo_ratio(f(0.8));
    assert!(!pt.is_bypass());
    pt.reset();
    assert!(pt.is_bypass());
    assert!((g(pt.tempo_ratio()) - 1.0).abs() < f32::EPSILON);
    assert!(g(pt.pitch_semitones()).abs() < f32::EPSILON);
}

#[test]
fn knobs_choose_the_route_as_floats_would() {
    let near_one = [1.0f32, f32::from_bits(0x3F7F_FFFF), f32::from_bits(0x3F80_0001), 0.99, 1.5];
    let near_zero = [0.0f32, -0.0, f32::EPSILON, f32::EPSILON / 2.0, -f32::EPSILON, 3.0];
    for t in near_one {
        for p in near_zero {
            let mut pt = PitchTempo::new(DeckId::A);
            pt.set_tempo_ratio(f(t));
            pt.set_pitch_semitones(f(p));
            let bypass = (t - 1.0).abs() < f32::EPSILON && p.abs() < f32::EPSILON;
            assert_eq!(pt.is_bypass(), bypass, "tempo {t}, pitch {p}");
        }
    }
    let mut pt = PitchTempo::new(DeckId::A);
    pt.set_tempo_ratio(f(1.5));
    assert_eq!(pt.route(), Route::Resample);
    pt.set_pitch_semitones(f(-3.0));
    assert_eq!(pt.route(), Route::Stretch);
}

#[test]
fn chunks_are_split_padded_and_joined() {
    let input = numbers(0, 10);
    let mut left = vec![f(7.0); 3];
    let mut right = Vec::new();
    split_chunk(&input, &mut left, &mut right);
    assert_eq!(left.len(), CHUNK_FRAMES);
    assert_eq!(right.len(), CHUNK_FRAMES);
    assert_eq!(g(left[2]), 4.0);
    assert_eq!(g(right[2]), 5.0);
    assert_eq!(g(left[5]), 0.0);
    let mut output = vec![f(-1.0); 12];
    assert_eq!(join_frames(&left, 5, &right, 6, &mut output), 10);
    assert_eq!(&output[..10], &input[..]);
    assert_eq!(g(output[10]), -1.0);
    split_chunk(&numbers(0, 2_000), &mut left, &mut right);
    assert_eq!(left.len(), CHUNK_FRAMES);
    assert_eq!(g(left[255]), 510.0);
    assert_eq!(SCRATCH_CAPACITY, 1088);
}

#[test]
fn hops_of_any_length_are_survived() {
    for hop_in in [2048i64, 1024, 512, 256, 128, 4096, 100_000, -5] {
        let mut w = Wsola::with_defaults(48_000);
        w.set_hop_in(hop_in);
        let mut output = vec![f(0.0); 8192];
        w.refill_input_ring(&numbers(0, 4096));
        let mut n = w.drain_pending(&mut output);
        while n < output.len() && w.ready() {
            let mut window = Vec::new();
            w.window_at(0, &mut window);
            let hop = window[..w.hop_size_out()].to_vec();
            n = w.emit_hop(&hop, &mut output, n);
        }
        assert!(n <= output.len(), "wrote {n} samples > buffer {}", output.len());
        assert!(n > 0, "no output produced");
        w.refill_input_ring(&numbers(4096, 512));
    }
}

#[test]
fn hops_follow_their_ideal_length() {
    let mut w = Wsola::with_defaults(48_000);
    let ideal = |ratio: f32| (512.0 / ratio).round() as i64;
    w.set_hop_in(ideal(1.0));
    assert_eq!(w.hop_size_in(), 512);
    w.set_hop_in(ideal(2.0));
    assert_eq!(w.hop_size_in(), 256);
    w.set_hop_in(ideal(0.5));
    assert_eq!(w.hop_size_in(), 1024);
    w.set_hop_in(0);
    assert_eq!(w.hop_size_in(), 1);
    w.set_hop_in(1_000_000);
    assert_eq!(w.hop_size_in(), 4096);
}

#[test]
fn resets_forget_everything_queued() {
    let mut w = Wsola::with_defaults(48_000);
    w.set_hop_in(1024);
    w.refill_input_ring(&numbers(0, 4096));
    let hop = vec![f(1.0); w.hop_size_out()];
    let mut output = vec![f(0.0); 100];
    let n = w.emit_hop(&hop, &mut output, 0);
    assert_eq!(n, 100);
    assert!(w.primed());
    assert_eq!(w.pending_len(), 412);
    w.reset();
    assert_eq!(w.pending_len(), 0);
    assert!(!w.primed());
    assert!(!w.ready());
    assert_eq!(w.hop_size_in(), 1024);
}

#[test]
fn queued_samples_come_first_in_first_out() {
    let mut w = Wsola::with_defaults(48_000);
    assert_eq!(w.window_size(), DEFAULT_WINDOW_SIZE);
    assert_eq!(w.hop_size_out(), DEFAULT_HOP_OUT);
    assert_eq!(w.search_range(), DEFAULT_SEARCH_RANGE);
    w.refill_input_ring(&numbers(0, 1000));
    assert!(!w.ready());
    w.refill_input_ring(&numbers(1000, 1000));
    assert!(w.ready());
    assert_eq!(g(w.sample_at(1500)), 1500.0);
    let mut window = vec![f(-1.0)];
    w.window_at(256, &mut window);
    assert_eq!(window, numbers(256, DEFAULT_WINDOW_SIZE));
    let hop = numbers(7000, 512);
    let mut output = vec![f(0.0); 500];
    assert_eq!(w.emit_hop(&hop, &mut output, 100), 500);
    assert_eq!(g(output[100]), 7000.0);
    assert_eq!(g(w.sample_at(0)), 512.0);
    assert_eq!(w.pending_len(), 112);
    assert!(!w.ready());
    let mut rest = vec![f(0.0); 200];
    assert_eq!(w.drain_pending(&mut rest), 112);
    assert_eq!(g(rest[0]), 7400.0);
    assert_eq!(g(rest[111]), 7511.0);
}

#[test]
fn the_queue_drops_its_oldest_samples() {
    let mut w = Wsola::with_defaults(48_000);
    w.refill_input_ring(&numbers(0, RING_LEN));
    w.refill_input_ring(&numbers(RING_LEN, 10));
    assert_eq!(g(w.sample_at(0)), 10.0);
    w.refill_input_ring(&numbers(0, RING_LEN + 5));
    assert_eq!(g(w.sample_at(0)), 5.0);
}

#[test]
fn samples_that_are_still_to_come_can_be_skipped() {
    let mut w = Wsola::with_defaults(48_000);
    w.set_hop_in(4096);
    w.refill_input_ring(&numbers(0, 1280));
    let mut output = vec![f(0.0); 512];
    let hop = vec![f(0.0); 512];
    w.emit_hop(&hop, &mut output, 0);
    w.refill_input_ring(&numbers(1280, 2000));
    assert!(!w.ready());
    w.refill_input_ring(&numbers(3280, 2200));
    assert_eq!(g(w.sample_at(0)), 4096.0);
}

#[test]
fn a_call_with_knobs_at_rest_is_a_copy() {
    let pt = PitchTempo::new(DeckId::B);
    assert_eq!(pt.deck(), DeckId::B);
    let input = numbers(1, 6);
    let mut out = vec![f(0.0); 4];
    let (mut left, mut right) = (numbers(5, 2), Vec::new());
    assert_eq!(pt.begin_process(&input, &mut out, &mut left, &mut right), ProcessStep::Done(4));
    assert_eq!(out, numbers(1, 4));
    assert_eq!(left, numbers(5, 2));
    assert!(right.is_empty());
}

#[test]
fn a_call_with_moved_knobs_takes_one_chunk_apart() {
    let mut pt = PitchTempo::new(DeckId::A);
    pt.set_tempo_ratio(f(1.5));
    let mut out = vec![f(9.0); 4];
    let (mut left, mut right) = (Vec::new(), Vec::new());
    assert_eq!(
        pt.begin_process(&numbers(1, 1), &mut out, &mut left, &mut right),
        ProcessStep::Done(0)
    );
    assert_eq!(
        pt.begin_process(&numbers(1, 4), &mut out, &mut left, &mut right),
        ProcessStep::Run { stretch: false }
    );
    assert_eq!(left.len(), CHUNK_FRAMES);
    assert_eq!(left[..3], [f(1.0), f(3.0), f(0.0)]);
    assert_eq!(right[..3], [f(2.0), f(4.0), f(0.0)]);
    pt.set_pitch_semitones(f(2.0));
    assert_eq!(
        pt.begin_process(&numbers(1, 4), &mut out, &mut left, &mut right),
        ProcessStep::Run { stretch: true }
    );
    assert_eq!(out, vec![f(9.0); 4]);
}

#[test]
fn the_second_stage_gets_what_both_channels_have() {
    let l = numbers(1, 300);
    let r = numbers(1001, 300);
    let mut part = numbers(9, 4);
    assert_eq!(second_frames(0, 300), 0);
    assert_eq!(second_frames(3, 2), 2);
    assert_eq!(second_frames(2, 3), 2);
    assert!(!second_part(&l, 0, false, 0, &mut part));
    assert_eq!(part, numbers(9, 4));
    assert!(second_part(&l, 2, true, 0, &mut part));
    assert_eq!(part, numbers(1, 2));
    assert!(second_part(&r, 2, true, 0, &mut part));
    assert_eq!(part, numbers(1001, 2));
    assert!(!second_part(&r, 2, true, 1, &mut part));
    assert!(second_part(&l, 2, false, 0, &mut part));
    assert_eq!(part.len(), CHUNK_FRAMES);
    assert_eq!(part[..3], [f(1.0), f(2.0), f(0.0)]);
    assert!(!second_part(&l, 2, false, 1, &mut part));
    assert!(second_part(&r, 2, false, 0, &mut part));
    assert_eq!(part[1..3], [f(1002.0), f(0.0)]);
    assert!(second_part(&l, 300, false, 0, &mut part));
    assert_eq!(part, numbers(1, CHUNK_FRAMES));
    assert!(second_part(&l, 300, false, 1, &mut part));
    assert_eq!(part.len(), CHUNK_FRAMES);
    assert_eq!(part[43..45], [f(300.0), f(0.0)]);
    assert!(!second_part(&l, 300, false, 2, &mut part));
}

#[test]
fn silence_that_fills_a_chunk_makes_no_output() {
    // An octave up: half a chunk is left, and the second resampler doubles it.
    assert_eq!(kept_frames(512, 128, 0), CHUNK_FRAMES);
    // An octave down: two chunks come, each halved.
    assert_eq!(kept_frames(128, 512, 0) + kept_frames(128, 512, 1), CHUNK_FRAMES);
    assert_eq!(kept_frames(300, 257, 1), 1);
}
