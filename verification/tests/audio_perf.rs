use hypehouse_engine::audio::perf::{
    CpuLoad, PerfMetrics, RenderBatch, DEFAULT_CALLBACK_PERIOD_NS,
};

fn percent(load: CpuLoad) -> f64 {
    load.busy_ns as f64 / load.period_ns as f64 * 100.0
}

#[test]
fn callback_period_derivation_matches_48k_512buf() {
    let p = PerfMetrics::callback_period_from(512, 48_000);
    assert!((10_666_665..=10_666_667).contains(&p), "got {p}, expected ~10666666");
}

#[test]
fn callback_period_guards_against_zero_inputs() {
    assert_eq!(PerfMetrics::callback_period_from(0, 48_000), DEFAULT_CALLBACK_PERIOD_NS);
    assert_eq!(PerfMetrics::callback_period_from(512, 0), DEFAULT_CALLBACK_PERIOD_NS);
}

#[test]
fn record_render_accumulates_counters_correctly() {
    let mut m = PerfMetrics::with_callback_period(10_000_000);
    for _ in 0..5 {
        m.record_render_ns(1_000_000);
    }
    let snap = m.snapshot();
    assert_eq!(snap.render_count, 5);
    assert_eq!(snap.avg_render_us, 1_000);
    assert!(
        (percent(snap.cpu_load) - 10.0).abs() < 1e-3,
        "expected ~10% CPU, got {}",
        percent(snap.cpu_load)
    );
}

#[test]
fn cpu_percent_calculation_matches_avg_ratio() {
    let mut m = PerfMetrics::with_callback_period(10_000_000);
    m.record_render_ns(5_000_000);
    let snap = m.snapshot();
    assert!(
        (percent(snap.cpu_load) - 50.0).abs() < 1e-3,
        "expected 50% CPU, got {}",
        percent(snap.cpu_load)
    );
}

#[test]
fn snapshot_resets_window_max_for_next_window() {
    let mut m = PerfMetrics::with_callback_period(10_000_000);
    m.record_render_ns(3_000_000);
    let s1 = m.snapshot();
    assert_eq!(s1.render_p99_us, 3_000);
    m.record_render_ns(500_000);
    let s2 = m.snapshot();
    assert_eq!(s2.render_p99_us, 500);
}

#[test]
fn record_audio_underrun_increments_counter() {
    let mut m = PerfMetrics::default();
    m.record_audio_underrun();
    m.record_audio_underrun();
    m.record_audio_underrun();
    let snap = m.snapshot();
    assert_eq!(snap.underrun_count, 3);
}

#[test]
fn snapshot_returns_zero_avg_when_no_renders_observed() {
    let mut m = PerfMetrics::default();
    let snap = m.snapshot();
    assert_eq!(snap.render_count, 0);
    assert_eq!(snap.avg_render_us, 0);
    assert!(percent(snap.cpu_load).is_finite() && percent(snap.cpu_load) == 0.0);
}

#[test]
fn set_dropped_frames_and_decode_underruns_are_reflected_in_snapshot() {
    let mut m = PerfMetrics::default();
    m.set_dropped_frames_recorder(42);
    m.set_decode_underruns(7);
    let snap = m.snapshot();
    assert_eq!(snap.dropped_frames, 42);
    assert_eq!(snap.decode_underruns, 7);
}

#[test]
fn cpu_percent_clamps_to_sane_window() {
    let mut m = PerfMetrics::with_callback_period(10_000_000);
    m.record_render_ns(100_000_000);
    let snap = m.snapshot();
    assert!(
        percent(snap.cpu_load) <= 200.0,
        "expected clamp at 200%, got {}",
        percent(snap.cpu_load)
    );
    assert_eq!(percent(snap.cpu_load), 200.0);
}

#[test]
fn the_callback_period_can_change() {
    let mut m = PerfMetrics::default();
    m.set_callback_period(2_000_000);
    m.record_render_ns(1_000_000);
    let snap = m.snapshot();
    assert_eq!(snap.callback_period_us, 2_000);
    assert_eq!(snap.cpu_load, CpuLoad { busy_ns: 1_000_000, period_ns: 2_000_000 });
    assert_eq!(PerfMetrics::callback_period_from(48_000, 48_000), 1_000_000_000);
}

#[test]
fn counters_wrap_around() {
    let mut m = PerfMetrics::default();
    m.underrun_count_audio = u64::MAX;
    m.record_audio_underrun();
    assert_eq!(m.snapshot().underrun_count, 0);
}

#[test]
fn the_load_is_exact() {
    let mut m = PerfMetrics::with_callback_period(3_000_000);
    m.record_render_ns(1_000_000);
    let snap = m.snapshot();
    assert_eq!(snap.cpu_load, CpuLoad { busy_ns: 1_000_000, period_ns: 3_000_000 });
    m.set_callback_period(u64::MAX);
    assert_eq!(m.snapshot().cpu_load, CpuLoad { busy_ns: 1_000_000, period_ns: u64::MAX });
}

#[test]
fn a_batch_counts_like_its_renders() {
    let times = [1_000_000u64, 9_000_000, 2_000_000];
    let mut one_by_one = PerfMetrics::with_callback_period(10_000_000);
    let mut at_once = PerfMetrics::with_callback_period(10_000_000);
    one_by_one.record_render_ns(3_000_000);
    at_once.record_render_ns(3_000_000);
    let mut batch = RenderBatch::new();
    for t in times {
        one_by_one.record_render_ns(t);
        batch.add_render(t);
    }
    assert_eq!(batch, RenderBatch { count: 3, total_ns: 12_000_000, max_ns: 9_000_000 });
    at_once.record_batch(batch);
    let snap = at_once.snapshot();
    assert_eq!(snap, one_by_one.snapshot());
    assert_eq!(snap.render_count, 4);
    assert_eq!(snap.avg_render_us, 3_750);
    assert_eq!(snap.render_p99_us, 9_000);
    at_once.record_batch(RenderBatch::default());
    assert_eq!(at_once.snapshot(), one_by_one.snapshot());
    let mut full = RenderBatch { count: u64::MAX, total_ns: u64::MAX, max_ns: 1 };
    full.add_render(2);
    assert_eq!(full, RenderBatch { count: 0, total_ns: 1, max_ns: 2 });
}
