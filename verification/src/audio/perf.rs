//! Performance counters of the audio thread.
use vstd::prelude::*;

verus! {

/// Callback period used while the real one is unknown: 512 frames at 48 kHz.
pub const DEFAULT_CALLBACK_PERIOD_NS: u64 = 10_667_000;

/// Nanoseconds in a second.
pub const NS_PER_SEC: u64 = 1_000_000_000;

/// Largest load that a snapshot reports, in callback periods.
pub const MAX_LOAD_PERIODS: u64 = 2;

/// Counters of the audio thread. There is one set of them, which its users
/// share: a copy would count on its own, so none can be made.
#[derive(Debug)]
pub struct PerfMetrics {
    pub render_count: u64,
    pub total_render_ns: u64,
    /// Longest render since the last snapshot.
    pub max_render_ns_window: u64,
    pub underrun_count_audio: u64,
    pub dropped_frames_recorder: u64,
    pub decode_underruns: u64,
    pub callback_period_ns: u64,
}

/// Load of the audio thread: so many nanoseconds of work in a callback
/// period, as an exact fraction.
#[derive(Clone, Copy, Debug, PartialEq, Eq, Structural)]
pub struct CpuLoad {
    pub busy_ns: u64,
    pub period_ns: u64,
}

/// Counters as they go out to clients.
#[derive(Clone, Copy, Debug, PartialEq, Eq, Structural)]
pub struct PerfSnapshot {
    /// Average render time as a part of the callback period.
    pub cpu_load: CpuLoad,
    /// Longest render since the snapshot before.
    pub render_p99_us: u32,
    pub avg_render_us: u32,
    pub underrun_count: u64,
    pub dropped_frames: u64,
    pub decode_underruns: u64,
    pub callback_period_us: u32,
    pub render_count: u64,
}

/// Range of the 64-bit counters, which wrap around.
pub open spec fn wrapped(n: int) -> u64 {
    (n % 0x1_0000_0000_0000_0000) as u64
}

/// Whole microseconds, modulo the range of a snapshot's fields.
pub open spec fn micros(ns: u64) -> u32 {
    ((ns / 1000) % 0x1_0000_0000) as u32
}

/// Average over `count` renders; 0 before the first.
pub open spec fn average(total: u64, count: u64) -> u64 {
    if count == 0 {
        0
    } else {
        (total / count) as u64
    }
}

/// Load of an average render time, cut at the largest that is reported.
pub open spec fn load(avg_ns: u64, period_ns: u64) -> CpuLoad {
    CpuLoad {
        busy_ns: if avg_ns > MAX_LOAD_PERIODS * period_ns {
            (MAX_LOAD_PERIODS * period_ns) as u64
        } else {
            avg_ns
        },
        period_ns,
    }
}

fn to_micros(ns: u64) -> (r: u32)
    ensures
        r == micros(ns),
{
    let us: u64 = ns / 1000;
    assert(us as u32 == us % 0x1_0000_0000) by (bit_vector);
    #[verifier::truncate]
    (us as u32)
}

fn to_load(avg_ns: u64, period_ns: u64) -> (r: CpuLoad)
    ensures
        r == load(avg_ns, period_ns),
{
    let p: u128 = period_ns as u128;
    let most: u128 = p + p;
    assert(most == MAX_LOAD_PERIODS * period_ns);
    let busy_ns: u64 = if (avg_ns as u128) > most {
        most as u64
    } else {
        avg_ns
    };
    CpuLoad { busy_ns, period_ns }
}

fn at_least_one(n: u64) -> (r: u64)
    ensures
        r == (if n == 0 {
            1u64
        } else {
            n
        }),
{
    if n == 0 {
        1
    } else {
        n
    }
}

/// Renders that wait to be counted.
#[derive(Clone, Copy, Debug, PartialEq, Eq, Structural)]
pub struct RenderBatch {
    pub count: u64,
    pub total_ns: u64,
    pub max_ns: u64,
}

impl RenderBatch {
    /// No renders.
    pub open spec fn none_spec() -> RenderBatch {
        RenderBatch { count: 0, total_ns: 0, max_ns: 0 }
    }

    /// With one render more.
    pub open spec fn with(self, render_ns: u64) -> RenderBatch {
        RenderBatch {
            count: wrapped(self.count + 1),
            total_ns: wrapped(self.total_ns + render_ns),
            max_ns: if self.max_ns < render_ns {
                render_ns
            } else {
                self.max_ns
            },
        }
    }

    /// No renders.
    pub fn new() -> (r: Self)
        ensures
            r == RenderBatch::none_spec(),
    {
        RenderBatch { count: 0, total_ns: 0, max_ns: 0 }
    }

    /// Put one render to the others.
    pub fn add_render(&mut self, render_ns: u64)
        ensures
            *final(self) == old(self).with(render_ns),
    {
        self.count = self.count.wrapping_add(1);
        self.total_ns = self.total_ns.wrapping_add(render_ns);
        if self.max_ns < render_ns {
            self.max_ns = render_ns;
        }
    }
}

impl Default for RenderBatch {
    /// No renders.
    fn default() -> (r: Self)
        ensures
            r == RenderBatch::none_spec(),
    {
        RenderBatch::new()
    }
}

impl PerfMetrics {
    /// The period divides, so it is never 0.
    pub open spec fn wf(self) -> bool {
        self.callback_period_ns > 0
    }

    /// Fresh counters for a callback period.
    pub fn with_callback_period(period_ns: u64) -> (r: Self)
        ensures
            r == (PerfMetrics {
                render_count: 0,
                total_render_ns: 0,
                max_render_ns_window: 0,
                underrun_count_audio: 0,
                dropped_frames_recorder: 0,
                decode_underruns: 0,
                callback_period_ns: if period_ns == 0 {
                    1
                } else {
                    period_ns
                },
            }),
            r.wf(),
    {
        PerfMetrics {
            render_count: 0,
            total_render_ns: 0,
            max_render_ns_window: 0,
            underrun_count_audio: 0,
            dropped_frames_recorder: 0,
            decode_underruns: 0,
            callback_period_ns: at_least_one(period_ns),
        }
    }

    /// Callback period of a stream that renders `frame_count` frames at a
    /// time; the default where one of the two is 0.
    pub fn callback_period_from(frame_count: u32, sample_rate: u32) -> (r: u64)
        ensures
            r == (if sample_rate == 0 || frame_count == 0 {
                DEFAULT_CALLBACK_PERIOD_NS as int
            } else if frame_count * NS_PER_SEC / sample_rate as int == 0 {
                1
            } else {
                frame_count * NS_PER_SEC / sample_rate as int
            }),
    {
        if sample_rate == 0 || frame_count == 0 {
            return DEFAULT_CALLBACK_PERIOD_NS;
        }
        at_least_one((frame_count as u64) * NS_PER_SEC / (sample_rate as u64))
    }

    /// Change the callback period.
    pub fn set_callback_period(&mut self, period_ns: u64)
        ensures
            *final(self) == (PerfMetrics {
                callback_period_ns: if period_ns == 0 {
                    1
                } else {
                    period_ns
                },
                ..*old(self)
            }),
            final(self).wf(),
    {
        self.callback_period_ns = at_least_one(period_ns);
    }

    /// The counters after a render.
    pub open spec fn after_render(self, render_ns: u64) -> PerfMetrics {
        PerfMetrics {
            render_count: wrapped(self.render_count + 1),
            total_render_ns: wrapped(self.total_render_ns + render_ns),
            max_render_ns_window: if self.max_render_ns_window < render_ns {
                render_ns
            } else {
                self.max_render_ns_window
            },
            ..self
        }
    }

    /// Count one completed render.
    pub fn record_render_ns(&mut self, render_ns: u64)
        ensures
            *final(self) == old(self).after_render(render_ns),
    {
        self.render_count = self.render_count.wrapping_add(1);
        self.total_render_ns = self.total_render_ns.wrapping_add(render_ns);
        if self.max_render_ns_window < render_ns {
            self.max_render_ns_window = render_ns;
        }
    }

    /// Count some completed renders at once.
    pub fn record_batch(&mut self, batch: RenderBatch)
        ensures
            *final(self) == old(self).after_batch(batch),
    {
        self.render_count = self.render_count.wrapping_add(batch.count);
        self.total_render_ns = self.total_render_ns.wrapping_add(batch.total_ns);
        if self.max_render_ns_window < batch.max_ns {
            self.max_render_ns_window = batch.max_ns;
        }
    }

    /// The counters after some renders.
    pub open spec fn after_batch(self, batch: RenderBatch) -> PerfMetrics {
        PerfMetrics {
            render_count: wrapped(self.render_count + batch.count),
            total_render_ns: wrapped(self.total_render_ns + batch.total_ns),
            max_render_ns_window: if self.max_render_ns_window < batch.max_ns {
                batch.max_ns
            } else {
                self.max_render_ns_window
            },
            ..self
        }
    }

    /// Count one underrun that the host reported.
    pub fn record_audio_underrun(&mut self)
        ensures
            *final(self) == (PerfMetrics {
                underrun_count_audio: wrapped(old(self).underrun_count_audio + 1),
                ..*old(self)
            }),
    {
        self.underrun_count_audio = self.underrun_count_audio.wrapping_add(1);
    }

    /// Take over the recorder's count of dropped frames.
    pub fn set_dropped_frames_recorder(&mut self, frames: u64)
        ensures
            *final(self) == (PerfMetrics { dropped_frames_recorder: frames, ..*old(self) }),
    {
        self.dropped_frames_recorder = frames;
    }

    /// Take over the decoder's count of underruns.
    pub fn set_decode_underruns(&mut self, count: u64)
        ensures
            *final(self) == (PerfMetrics { decode_underruns: count, ..*old(self) }),
    {
        self.decode_underruns = count;
    }

    /// What a snapshot of these counters says.
    pub open spec fn snapshot_spec(self) -> PerfSnapshot {
        let avg = average(self.total_render_ns, self.render_count);
        PerfSnapshot {
            cpu_load: load(avg, self.callback_period_ns),
            render_p99_us: micros(self.max_render_ns_window),
            avg_render_us: micros(avg),
            underrun_count: self.underrun_count_audio,
            dropped_frames: self.dropped_frames_recorder,
            decode_underruns: self.decode_underruns,
            callback_period_us: micros(self.callback_period_ns),
            render_count: self.render_count,
        }
    }

    /// Take a snapshot and start a new window for the longest render.
    pub fn snapshot(&mut self) -> (r: PerfSnapshot)
        requires
            old(self).wf(),
        ensures
            r == old(self).snapshot_spec(),
            *final(self) == (PerfMetrics { max_render_ns_window: 0, ..*old(self) }),
    {
        let avg: u64 = if self.render_count == 0 {
            0
        } else {
            self.total_render_ns / self.render_count
        };
        let max: u64 = self.max_render_ns_window;
        self.max_render_ns_window = 0;
        PerfSnapshot {
            cpu_load: to_load(avg, self.callback_period_ns),
            render_p99_us: to_micros(max),
            avg_render_us: to_micros(avg),
            underrun_count: self.underrun_count_audio,
            dropped_frames: self.dropped_frames_recorder,
            decode_underruns: self.decode_underruns,
            callback_period_us: to_micros(self.callback_period_ns),
            render_count: self.render_count,
        }
    }
}

impl Default for PerfMetrics {
    fn default() -> (r: Self)
        ensures
            r.callback_period_ns == DEFAULT_CALLBACK_PERIOD_NS,
            r.render_count == 0,
            r.total_render_ns == 0,
            r.max_render_ns_window == 0,
            r.underrun_count_audio == 0,
            r.dropped_frames_recorder == 0,
            r.decode_underruns == 0,
    {
        PerfMetrics::with_callback_period(DEFAULT_CALLBACK_PERIOD_NS)
    }
}

/// A snapshot reports the longest render since the snapshot before it, and
/// no longer one that was already reported.
pub proof fn windows_do_not_overlap(m: PerfMetrics, render_ns: u64)
    requires
        m.wf(),
        m.max_render_ns_window == 0,
    ensures
        (PerfMetrics { max_render_ns_window: render_ns, ..m }).snapshot_spec().render_p99_us
            == micros(render_ns),
        m.snapshot_spec().render_p99_us == 0,
{
}

/// Renders count the same one by one and in a batch.
pub proof fn batches_count_every_render(m: PerfMetrics, batch: RenderBatch, render_ns: u64)
    ensures
        m.after_batch(RenderBatch::none_spec()) == m,
        m.after_batch(batch.with(render_ns)) == m.after_batch(batch).after_render(render_ns),
{
    lemma_wrapped(m.render_count as int);
    lemma_wrapped(m.total_render_ns as int);
    lemma_wrapped_sum(m.render_count, batch.count, 1);
    lemma_wrapped_sum(m.total_render_ns, batch.total_ns, render_ns);
}

proof fn lemma_wrapped(n: int)
    requires
        0 <= n < 0x2_0000_0000_0000_0000,
    ensures
        wrapped(n) == (if n < 0x1_0000_0000_0000_0000 {
            n
        } else {
            n - 0x1_0000_0000_0000_0000
        }),
{
}

proof fn lemma_wrapped_sum(a: u64, b: u64, c: u64)
    ensures
        wrapped(a + wrapped(b + c)) == wrapped(wrapped(a + b) + c),
{
    lemma_wrapped(b + c);
    lemma_wrapped(a + b);
    lemma_wrapped(a + wrapped(b + c));
    lemma_wrapped(wrapped(a + b) + c);
}

/// The load that a snapshot reports never exceeds its bound; up to there it is
/// the average render time itself.
pub proof fn load_is_bounded(avg_ns: u64, period_ns: u64)
    ensures
        load(avg_ns, period_ns).busy_ns <= MAX_LOAD_PERIODS * period_ns,
        avg_ns <= MAX_LOAD_PERIODS * period_ns ==> load(avg_ns, period_ns).busy_ns == avg_ns,
        load(avg_ns, period_ns).period_ns == period_ns,
{
}

/// Microseconds are whole thousands of nanoseconds, and an average shares the
/// total out evenly.
pub proof fn times_are_rounded_down(ns: u64, total: u64, count: u64)
    ensures
        ns < 1000 * 0x1_0000_0000 ==> 1000 * micros(ns) <= ns < 1000 * micros(ns) + 1000,
        count == 0 ==> average(total, count) == 0,
        count > 0 ==> average(total, count) * count <= total < (average(total, count) + 1) * count,
{
    if count > 0 {
        vstd::arithmetic::div_mod::lemma_fundamental_div_mod(total as int, count as int);
        let q = total as int / count as int;
        let m = total as int % count as int;
        assert(q * count <= total < (q + 1) * count) by (nonlinear_arith)
            requires
                total == count * q + m,
                0 <= m < count,
        ;
    }
}

/// A render counts once: one more render, its time more in all, and the
/// longest so far where it is; the other counters stay.
pub proof fn renders_count_once(m: PerfMetrics, render_ns: u64)
    requires
        m.render_count < u64::MAX,
        m.total_render_ns + render_ns <= u64::MAX,
    ensures
        ({
            let after = m.after_render(render_ns);
            &&& after.render_count == m.render_count + 1
            &&& after.total_render_ns == m.total_render_ns + render_ns
            &&& after.max_render_ns_window >= render_ns
            &&& after.max_render_ns_window >= m.max_render_ns_window
            &&& after.max_render_ns_window == render_ns || after.max_render_ns_window
                == m.max_render_ns_window
            &&& after.underrun_count_audio == m.underrun_count_audio
            &&& after.dropped_frames_recorder == m.dropped_frames_recorder
            &&& after.decode_underruns == m.decode_underruns
            &&& after.callback_period_ns == m.callback_period_ns
        }),
{
}

/// A batch holds what was put to it: one render more, its time more in all,
/// and the longest of them.
pub proof fn batches_hold_their_renders(batch: RenderBatch, render_ns: u64)
    requires
        batch.count < u64::MAX,
        batch.total_ns + render_ns <= u64::MAX,
    ensures
        RenderBatch::none_spec().count == 0,
        RenderBatch::none_spec().total_ns == 0,
        RenderBatch::none_spec().max_ns == 0,
        batch.with(render_ns).count == batch.count + 1,
        batch.with(render_ns).total_ns == batch.total_ns + render_ns,
        batch.with(render_ns).max_ns >= render_ns,
        batch.with(render_ns).max_ns >= batch.max_ns,
        batch.with(render_ns).max_ns == render_ns || batch.with(render_ns).max_ns == batch.max_ns,
{
}

/// Counters start anew behind their range, and not before.
pub proof fn counters_wrap_around(n: int)
    requires
        0 <= n < 0x2_0000_0000_0000_0000,
    ensures
        n <= u64::MAX ==> wrapped(n) == n,
        n > u64::MAX ==> wrapped(n) == n - 0x1_0000_0000_0000_0000,
{
}

/// A snapshot shows each counter as it is, the average and the longest render
/// in microseconds, and the load as the share of the average in the period,
/// up to two periods.
pub proof fn snapshots_show_the_counters(m: PerfMetrics)
    ensures
        ({
            let shown = m.snapshot_spec();
            let avg = average(m.total_render_ns, m.render_count);
            &&& shown.render_count == m.render_count
            &&& shown.underrun_count == m.underrun_count_audio
            &&& shown.dropped_frames == m.dropped_frames_recorder
            &&& shown.decode_underruns == m.decode_underruns
            &&& shown.render_p99_us == micros(m.max_render_ns_window)
            &&& shown.avg_render_us == micros(avg)
            &&& shown.callback_period_us == micros(m.callback_period_ns)
            &&& shown.cpu_load.period_ns == m.callback_period_ns
            &&& avg <= 2 * m.callback_period_ns ==> shown.cpu_load.busy_ns == avg
            &&& avg > 2 * m.callback_period_ns ==> shown.cpu_load.busy_ns == 2
                * m.callback_period_ns
        }),
{
}

} // verus!
