//! Knobs of a deck's pitch and tempo stage, and the way its samples take.
use vstd::prelude::*;

use crate::audio::samples::{chunks_cover_the_signal, padded_chunk};
use crate::f32_bits::{F32Bits, ONE_BITS, SIGN_BIT, ZERO_BITS};
use crate::state::DeckId;

verus! {

/// Bit pattern of one half, the slowest tempo.
pub const MIN_TEMPO_BITS: u32 = 0x3F00_0000;

/// Bit pattern of two, the fastest tempo.
pub const MAX_TEMPO_BITS: u32 = 0x4000_0000;

/// Bit pattern of minus twelve, the deepest pitch shift in semitones.
pub const MIN_PITCH_BITS: u32 = 0xC140_0000;

/// Bit pattern of twelve, the highest pitch shift in semitones.
pub const MAX_PITCH_BITS: u32 = 0x4140_0000;

/// Bit pattern of the smallest step above one; a smaller value counts as
/// none.
pub const EPSILON_BITS: u32 = 0x3400_0000;

/// Frames that a call takes in.
pub const CHUNK_FRAMES: usize = 256;

/// Frames of scratch space per channel.
pub const SCRATCH_CAPACITY: usize = CHUNK_FRAMES * 4 + 64;

/// `ratio` as a deck runs it: confined to the range of tempos, and the
/// original tempo where it is no finite number.
pub open spec fn tempo_spec(ratio: F32Bits) -> F32Bits {
    if ratio.magnitude() < crate::f32_bits::INFINITY_BITS {
        ratio.clamp_spec(F32Bits { bits: MIN_TEMPO_BITS }, F32Bits { bits: MAX_TEMPO_BITS })
    } else {
        F32Bits { bits: ONE_BITS }
    }
}

/// `semitones` as a deck runs it: confined to the range of shifts, and none
/// where it is no finite number.
pub open spec fn pitch_spec(semitones: F32Bits) -> F32Bits {
    if semitones.magnitude() < crate::f32_bits::INFINITY_BITS {
        semitones.clamp_spec(F32Bits { bits: MIN_PITCH_BITS }, F32Bits { bits: MAX_PITCH_BITS })
    } else {
        F32Bits { bits: ZERO_BITS }
    }
}

/// Confine a tempo.
pub fn clamp_tempo_ratio(ratio: F32Bits) -> (r: F32Bits)
    ensures
        r == tempo_spec(ratio),
{
    if !ratio.is_finite() {
        return F32Bits { bits: ONE_BITS };
    }
    ratio.clamp(F32Bits { bits: MIN_TEMPO_BITS }, F32Bits { bits: MAX_TEMPO_BITS })
}

/// Confine a pitch shift.
pub fn clamp_pitch_semitones(semitones: F32Bits) -> (r: F32Bits)
    ensures
        r == pitch_spec(semitones),
{
    if !semitones.is_finite() {
        return F32Bits { bits: ZERO_BITS };
    }
    semitones.clamp(F32Bits { bits: MIN_PITCH_BITS }, F32Bits { bits: MAX_PITCH_BITS })
}

/// The way samples take through the stage.
#[derive(Clone, Copy, Debug, PartialEq, Eq, Structural)]
pub enum Route {
    /// Both knobs at rest: input goes out unchanged.
    Bypass,
    /// One knob moved: two resamplers in a row.
    Resample,
    /// Both knobs moved: a resampler, then a time stretch.
    Stretch,
}

/// The two knobs of a deck.
#[derive(Clone, Copy, Debug, PartialEq, Eq, Structural)]
pub struct PitchTempo {
    tempo: F32Bits,
    pitch: F32Bits,
    deck: DeckId,
}

/// Whether a tempo counts as the original one: it is one, or the number next
/// below.
pub open spec fn tempo_at_rest(t: F32Bits) -> bool {
    t.bits == ONE_BITS || t.bits == ONE_BITS - 1
}

/// Whether a pitch shift counts as none.
pub open spec fn pitch_at_rest(p: F32Bits) -> bool {
    p.magnitude() < EPSILON_BITS
}

impl PitchTempo {
    /// The tempo, confined to its range.
    pub closed spec fn tempo_view(&self) -> F32Bits {
        self.tempo
    }

    /// The pitch shift, confined to its range.
    pub closed spec fn pitch_view(&self) -> F32Bits {
        self.pitch
    }

    /// The deck whose knobs these are.
    pub closed spec fn deck_view(&self) -> DeckId {
        self.deck
    }

    /// A deck with both knobs at rest.
    pub fn new(deck: DeckId) -> (r: Self)
        ensures
            r.deck_view() == deck,
            r.tempo_view().bits == ONE_BITS,
            r.pitch_view().bits == ZERO_BITS,
    {
        PitchTempo { tempo: F32Bits { bits: ONE_BITS }, pitch: F32Bits { bits: ZERO_BITS }, deck }
    }

    /// The deck whose knobs these are.
    pub fn deck(&self) -> (r: DeckId)
        ensures
            r == self.deck_view(),
    {
        self.deck
    }

    /// Turn the tempo knob.
    pub fn set_tempo_ratio(&mut self, ratio: F32Bits)
        ensures
            final(self).tempo_view() == tempo_spec(ratio),
            final(self).pitch_view() == old(self).pitch_view(),
            final(self).deck_view() == old(self).deck_view(),
    {
        self.tempo = clamp_tempo_ratio(ratio);
    }

    /// Turn the pitch knob.
    pub fn set_pitch_semitones(&mut self, semitones: F32Bits)
        ensures
            final(self).pitch_view() == pitch_spec(semitones),
            final(self).tempo_view() == old(self).tempo_view(),
            final(self).deck_view() == old(self).deck_view(),
    {
        self.pitch = clamp_pitch_semitones(semitones);
    }

    /// Put both knobs back to rest.
    pub fn reset(&mut self)
        ensures
            final(self).tempo_view().bits == ONE_BITS,
            final(self).pitch_view().bits == ZERO_BITS,
            final(self).deck_view() == old(self).deck_view(),
    {
        self.tempo = F32Bits { bits: ONE_BITS };
        self.pitch = F32Bits { bits: ZERO_BITS };
    }

    /// Whether both knobs are at rest.
    pub fn is_bypass(&self) -> (r: bool)
        ensures
            r == (tempo_at_rest(self.tempo_view()) && pitch_at_rest(self.pitch_view())),
            r <==> 0x3F7F_FFFF <= self.tempo_view().bits <= 0x3F80_0000 && (self.pitch_view().bits
                < 0x3400_0000 || 0x8000_0000 <= self.pitch_view().bits < 0xB400_0000),
    {
        let t: u32 = self.tempo.bits;
        let p: u32 = self.pitch.bits;
        let m: u32 = if p >= SIGN_BIT {
            p - SIGN_BIT
        } else {
            p
        };
        (t == ONE_BITS || t == ONE_BITS - 1) && m < EPSILON_BITS
    }

    /// Current tempo.
    pub fn tempo_ratio(&self) -> (r: F32Bits)
        ensures
            r == self.tempo_view(),
    {
        self.tempo
    }

    /// Current pitch shift.
    pub fn pitch_semitones(&self) -> (r: F32Bits)
        ensures
            r == self.pitch_view(),
    {
        self.pitch
    }

    /// The way samples take with the knobs as they are.
    pub open spec fn route_spec(&self) -> Route {
        if tempo_at_rest(self.tempo_view()) && pitch_at_rest(self.pitch_view()) {
            Route::Bypass
        } else if self.tempo_view().bits != ONE_BITS && self.pitch_view().magnitude()
            > EPSILON_BITS {
            Route::Stretch
        } else {
            Route::Resample
        }
    }

    /// Choose the way samples take.
    pub fn route(&self) -> (r: Route)
        ensures
            r == self.route_spec(),
            r == Route::Bypass <==> tempo_at_rest(self.tempo_view()) && pitch_at_rest(
                self.pitch_view(),
            ),
            r == Route::Stretch <==> self.tempo_view().bits != 0x3F80_0000 && (0x3400_0000
                < self.pitch_view().bits < 0x8000_0000 || 0xB400_0000 < self.pitch_view().bits),
    {
        if self.is_bypass() {
            return Route::Bypass;
        }
        let p: u32 = self.pitch.bits;
        let m: u32 = if p >= SIGN_BIT {
            p - SIGN_BIT
        } else {
            p
        };
        if self.tempo.bits != ONE_BITS && m > EPSILON_BITS {
            Route::Stretch
        } else {
            Route::Resample
        }
    }
}

/// Frames that a call takes from `samples` interleaved samples.
pub open spec fn frames_taken(samples: int) -> int {
    if samples / 2 < CHUNK_FRAMES {
        samples / 2
    } else {
        CHUNK_FRAMES as int
    }
}

/// One channel of the chunk that a call takes in, filled up with silence.
pub open spec fn chunk_channel(input: Seq<F32Bits>, channel: int) -> Seq<F32Bits> {
    Seq::new(
        CHUNK_FRAMES as nat,
        |i: int|
            if i < frames_taken(input.len() as int) {
                input[2 * i + channel]
            } else {
                F32Bits { bits: ZERO_BITS }
            },
    )
}

/// Take one chunk of interleaved stereo apart into its channels, in place of
/// what `left` and `right` held.
pub fn split_chunk(input: &[F32Bits], left: &mut Vec<F32Bits>, right: &mut Vec<F32Bits>)
    ensures
        final(left)@ == chunk_channel(input@, 0),
        final(right)@ == chunk_channel(input@, 1),
{
    let half: usize = input.len() / 2;
    let frames: usize = if half < CHUNK_FRAMES {
        half
    } else {
        CHUNK_FRAMES
    };
    left.clear();
    right.clear();
    let mut i: usize = 0;
    while i < CHUNK_FRAMES
        invariant
            i <= CHUNK_FRAMES,
            frames == frames_taken(input@.len() as int),
            2 * frames <= input@.len(),
            left@.len() == i,
            right@.len() == i,
            forall|j: int| 0 <= j < i ==> #[trigger] left@[j] == chunk_channel(input@, 0)[j],
            forall|j: int| 0 <= j < i ==> #[trigger] right@[j] == chunk_channel(input@, 1)[j],
        decreases CHUNK_FRAMES - i,
    {
        if i < frames {
            left.push(input[2 * i]);
            right.push(input[2 * i + 1]);
        } else {
            left.push(F32Bits { bits: ZERO_BITS });
            right.push(F32Bits { bits: ZERO_BITS });
        }
        i += 1;
    }
    assert(left@ =~= chunk_channel(input@, 0));
    assert(right@ =~= chunk_channel(input@, 1));
}

/// Frames that go out: as many as both channels have and the output holds.
pub open spec fn frames_joined(left: int, right: int, samples: int) -> int {
    let both = if left < right {
        left
    } else {
        right
    };
    if both < samples / 2 {
        both
    } else {
        samples / 2
    }
}

/// Interleave the first `left_frames` and `right_frames` frames of two
/// channels into `output`. Returns how many samples were written.
pub fn join_frames(
    left: &Vec<F32Bits>,
    left_frames: usize,
    right: &Vec<F32Bits>,
    right_frames: usize,
    output: &mut [F32Bits],
) -> (r: usize)
    requires
        left_frames <= left@.len(),
        right_frames <= right@.len(),
    ensures
        r == 2 * frames_joined(
            left_frames as int,
            right_frames as int,
            old(output)@.len() as int,
        ),
        final(output)@.len() == old(output)@.len(),
        forall|i: int|
            0 <= i < final(output)@.len() ==> #[trigger] final(output)@[i] == (if i < r {
                if i % 2 == 0 {
                    left@[i / 2]
                } else {
                    right@[i / 2]
                }
            } else {
                old(output)@[i]
            }),
{
    let both: usize = if left_frames < right_frames {
        left_frames
    } else {
        right_frames
    };
    let room: usize = output.len() / 2;
    let n: usize = if both < room {
        both
    } else {
        room
    };
    let mut i: usize = 0;
    while i < n
        invariant
            i <= n,
            2 * n <= output@.len(),
            output@.len() == output.len(),
            output@.len() == old(output)@.len(),
            n <= left@.len(),
            n <= right@.len(),
            forall|j: int|
                0 <= j < output@.len() ==> #[trigger] output@[j] == (if j < 2 * i {
                    if j % 2 == 0 {
                        left@[j / 2]
                    } else {
                        right@[j / 2]
                    }
                } else {
                    old(output)@[j]
                }),
        decreases n - i,
    {
        output[2 * i] = left[i];
        output[2 * i + 1] = right[i];
        i += 1;
    }
    2 * n
}

/// Copy input to output unchanged, as far as both go.
pub fn pass_through(input: &[F32Bits], output: &mut [F32Bits]) -> (r: usize)
    ensures
        r == (if input@.len() < old(output)@.len() {
            input@.len()
        } else {
            old(output)@.len()
        }),
        final(output)@ == input@.take(r as int) + old(output)@.skip(r as int),
{
    let n: usize = if input.len() < output.len() {
        input.len()
    } else {
        output.len()
    };
    let mut i: usize = 0;
    assert(output@ =~= input@.take(0) + old(output)@.skip(0));
    while i < n
        invariant
            i <= n,
            n <= input@.len(),
            n <= output@.len(),
            output@.len() == old(output)@.len(),
            output@ == input@.take(i as int) + old(output)@.skip(i as int),
        decreases n - i,
    {
        output[i] = input[i];
        assert(output@ =~= input@.take(i + 1) + old(output)@.skip(i + 1));
        i += 1;
    }
    n
}

/// What to do with one call's input.
#[derive(Clone, Copy, Debug, PartialEq, Eq, Structural)]
pub enum ProcessStep {
    /// Nothing more: so many samples of output are written.
    Done(usize),
    /// Run both channels through the first resampler, then through the time
    /// stretch or the second resampler.
    Run { stretch: bool },
}

impl PitchTempo {
    /// Begin a call. With both knobs at rest the input is copied and the call
    /// is done; so it is, with nothing written, where the input holds no
    /// whole frame. Else one chunk is taken apart into `left` and `right`, for
    /// the stages to come.
    pub fn begin_process(
        &self,
        input: &[F32Bits],
        output: &mut [F32Bits],
        left: &mut Vec<F32Bits>,
        right: &mut Vec<F32Bits>,
    ) -> (r: ProcessStep)
        ensures
            input@.len() >= 2 ==> (r is Done <==> tempo_at_rest(self.tempo_view())
                && pitch_at_rest(self.pitch_view())),
            input@.len() >= 2 ==> (r == (ProcessStep::Run { stretch: true })
                <==> self.tempo_view().bits != 0x3F80_0000 && (0x3400_0000
                < self.pitch_view().bits < 0x8000_0000 || 0xB400_0000 < self.pitch_view().bits)),
            match self.route_spec() {
                Route::Bypass => {
                    &&& r matches ProcessStep::Done(n)
                    &&& n == (if input@.len() < old(output)@.len() {
                        input@.len()
                    } else {
                        old(output)@.len()
                    })
                    &&& final(output)@ == input@.take(n as int) + old(output)@.skip(n as int)
                    &&& final(left)@ == old(left)@
                    &&& final(right)@ == old(right)@
                },
                route => {
                    &&& final(output)@ == old(output)@
                    &&& if input@.len() < 2 {
                        &&& r == ProcessStep::Done(0)
                        &&& final(left)@ == old(left)@
                        &&& final(right)@ == old(right)@
                    } else {
                        &&& r == (ProcessStep::Run { stretch: route is Stretch })
                        &&& final(left)@ == chunk_channel(input@, 0)
                        &&& final(right)@ == chunk_channel(input@, 1)
                    }
                },
            },
    {
        let route: Route = self.route();
        if route == Route::Bypass {
            return ProcessStep::Done(pass_through(input, output));
        }
        if input.len() < 2 {
            return ProcessStep::Done(0);
        }
        split_chunk(input, left, right);
        ProcessStep::Run { stretch: route == Route::Stretch }
    }
}

/// How many chunks a resampler takes for so many frames.
pub open spec fn chunks_for(frames: int) -> int {
    (frames + CHUNK_FRAMES - 1) / CHUNK_FRAMES as int
}

/// What the second stage takes of a channel: all of it at once for the time
/// stretch; for a resampler chunk by chunk, the last one filled up with
/// silence.
pub open spec fn second_input(signal: Seq<F32Bits>, stretch: bool) -> Seq<Seq<F32Bits>> {
    if stretch {
        seq![signal]
    } else {
        Seq::new(
            chunks_for(signal.len() as int) as nat,
            |k: int| padded_chunk(signal, k * CHUNK_FRAMES, CHUNK_FRAMES as int),
        )
    }
}

/// How many frames both channels go on with: as many as the first stage made
/// of each.
pub fn second_frames(left_frames: usize, right_frames: usize) -> (r: usize)
    ensures
        r == (if left_frames < right_frames {
            left_frames
        } else {
            right_frames
        }),
{
    if left_frames < right_frames {
        left_frames
    } else {
        right_frames
    }
}

/// Put the part number `k` of what the second stage takes of a channel, of
/// which the first stage made `frames` frames, into `out`, in place of what
/// it held. False, and nothing, where there is no such part.
pub fn second_part(
    mid: &[F32Bits],
    frames: usize,
    stretch: bool,
    k: usize,
    out: &mut Vec<F32Bits>,
) -> (r: bool)
    requires
        frames <= mid@.len(),
    ensures
        ({
            let parts = second_input(mid@.take(frames as int), stretch);
            if k < parts.len() {
                r && final(out)@ == parts[k as int]
            } else {
                !r && final(out)@ == old(out)@
            }
        }),
{
    let ghost signal = mid@.take(frames as int);
    let wanted: usize = if stretch {
        frames
    } else {
        CHUNK_FRAMES
    };
    let start: usize = if stretch {
        if k > 0 {
            return false;
        }
        0
    } else {
        let chunks: usize = frames / CHUNK_FRAMES + if frames % CHUNK_FRAMES > 0 {
            1usize
        } else {
            0usize
        };
        if k >= chunks {
            return false;
        }
        k * CHUNK_FRAMES
    };
    out.clear();
    let mut i: usize = 0;
    while i < wanted
        invariant
            i <= wanted,
            signal == mid@.take(frames as int),
            frames <= mid@.len(),
            start <= frames,
            out@.len() == i,
            forall|j: int|
                0 <= j < i ==> #[trigger] out@[j] == (if start + j < frames {
                    signal[start + j]
                } else {
                    F32Bits { bits: ZERO_BITS }
                }),
        decreases wanted - i,
    {
        if i < frames - start {
            out.push(mid[start + i]);
        } else {
            out.push(F32Bits { bits: ZERO_BITS });
        }
        i += 1;
    }
    assert(out@ =~= second_input(signal, stretch)[k as int]);
    true
}

/// Frames of chunk `k` that are no silence, where there are `frames` in all.
pub open spec fn real_frames(frames: int, k: int) -> int {
    let left = frames - k * CHUNK_FRAMES;
    if left < CHUNK_FRAMES {
        left
    } else {
        CHUNK_FRAMES as int
    }
}

/// How many of the `made` frames that a resampler made of chunk `k` are kept:
/// the share of the frames in it that are no silence. So what fills up the
/// last chunk does not make the output longer.
pub fn kept_frames(made: usize, frames: usize, k: usize) -> (r: usize)
    requires
        k < chunks_for(frames as int),
    ensures
        r == made * real_frames(frames as int, k as int) / CHUNK_FRAMES as int,
        r <= made,
        256 * (k + 1) <= frames ==> r == made,
        256 * (k + 1) > frames ==> 256 * r <= made * (frames - 256 * k) < 256 * (r + 1),
{
    let start: u128 = (k as u128) * (CHUNK_FRAMES as u128);
    let left: u128 = (frames as u128) - start;
    let sound: u128 = if left < CHUNK_FRAMES as u128 {
        left
    } else {
        CHUNK_FRAMES as u128
    };
    let all: u128 = made as u128;
    assert(all * sound <= all * 256 && all * sound / 256 <= all) by (nonlinear_arith)
        requires
            0 <= sound <= 256,
            0 <= all,
    ;
    let share: u128 = all * sound / (CHUNK_FRAMES as u128);
    share as usize
}

/// The chunks of a channel hold all its frames, in order, and the frames in
/// them that are no silence are just as many.
pub proof fn chunks_hold_the_channel(signal: Seq<F32Bits>, i: int)
    requires
        0 <= i < signal.len(),
    ensures
        0 <= i / CHUNK_FRAMES as int <= chunks_for(signal.len() as int) - 1,
        second_input(signal, false)[i / CHUNK_FRAMES as int][i % CHUNK_FRAMES as int] == signal[i],
        i % (CHUNK_FRAMES as int) < real_frames(signal.len() as int, i / CHUNK_FRAMES as int),
{
    chunks_cover_the_signal(signal, CHUNK_FRAMES as int, i);
}

/// Taking a chunk apart and joining its channels gives the chunk back.
pub proof fn split_then_join(input: Seq<F32Bits>, i: int)
    requires
        0 <= i < 2 * frames_taken(input.len() as int),
    ensures
        (if i % 2 == 0 {
            chunk_channel(input, 0)[i / 2]
        } else {
            chunk_channel(input, 1)[i / 2]
        }) == input[i],
{
}

/// A knob always stays in its range, whatever it was turned to.
pub proof fn knobs_stay_in_range(v: F32Bits)
    ensures
        MIN_TEMPO_BITS <= tempo_spec(v).bits <= MAX_TEMPO_BITS,
        pitch_spec(v).magnitude() <= MAX_PITCH_BITS,
{
}

/// A tempo between one half and two is run as it is; a slower or faster one
/// gives the bound on its side, and what is no finite number the original
/// tempo.
pub proof fn tempos_in_range_are_taken(ratio: F32Bits)
    ensures
        0x3F00_0000 <= ratio.bits <= 0x4000_0000 ==> tempo_spec(ratio) == ratio,
        ratio.bits < 0x3F00_0000 || 0x8000_0000 <= ratio.bits < 0xFF80_0000 ==> tempo_spec(
            ratio,
        ).bits == 0x3F00_0000,
        0x4000_0000 < ratio.bits < 0x7F80_0000 ==> tempo_spec(ratio).bits == 0x4000_0000,
        0x7F80_0000 <= ratio.bits < 0x8000_0000 || 0xFF80_0000 <= ratio.bits ==> tempo_spec(
            ratio,
        ).bits == 0x3F80_0000,
{
}

/// A shift of at most twelve semitones either way is run as it is; a larger
/// one gives the bound on its side, and what is no finite number no shift.
pub proof fn shifts_in_range_are_taken(semitones: F32Bits)
    ensures
        semitones.bits <= 0x4140_0000 || 0x8000_0000 <= semitones.bits <= 0xC140_0000 ==> pitch_spec(
            semitones,
        ) == semitones,
        0x4140_0000 < semitones.bits < 0x7F80_0000 ==> pitch_spec(semitones).bits == 0x4140_0000,
        0xC140_0000 < semitones.bits < 0xFF80_0000 ==> pitch_spec(semitones).bits == 0xC140_0000,
        0x7F80_0000 <= semitones.bits < 0x8000_0000 || 0xFF80_0000 <= semitones.bits ==> pitch_spec(
            semitones,
        ).bits == 0,
{
}

/// A knob is at rest just where it stands at its neutral value, up to less
/// than the smallest step above one.
pub proof fn knobs_rest_at_their_neutral_value(v: F32Bits)
    ensures
        tempo_at_rest(v) <==> v.bits == 0x3F80_0000 || v.bits == 0x3F7F_FFFF,
        pitch_at_rest(v) <==> v.bits < 0x3400_0000 || 0x8000_0000 <= v.bits < 0xB400_0000,
{
}

/// Samples pass unchanged just where both knobs are at rest: turning either
/// of them alone brings the resamplers in, and turning both the time stretch.
/// Two settings lie on the border between rest and motion: the tempo next
/// below the original one, and a shift by just the smallest step; with either
/// of them it still holds that nothing passes unchanged but at rest.
pub proof fn routes_follow_the_knobs(p: PitchTempo)
    ensures
        ({
            let t = p.tempo_view().bits;
            let s = p.pitch_view().bits;
            let tempo_rests = 0x3F7F_FFFF <= t <= 0x3F80_0000;
            let pitch_rests = s < 0x3400_0000 || 0x8000_0000 <= s < 0xB400_0000;
            let border = t == 0x3F7F_FFFF || s == 0x3400_0000 || s == 0xB400_0000;
            &&& p.route_spec() == Route::Bypass <==> tempo_rests && pitch_rests
            &&& !border ==> (p.route_spec() == Route::Stretch <==> !tempo_rests && !pitch_rests)
            &&& !border ==> (p.route_spec() == Route::Resample <==> tempo_rests != pitch_rests)
            &&& s == 0x3400_0000 || s == 0xB400_0000 ==> p.route_spec() == Route::Resample
            &&& t == 0x3F7F_FFFF && !pitch_rests && s != 0x3400_0000 && s != 0xB400_0000
                ==> p.route_spec() == Route::Stretch
        }),
{
}

/// Both channels of a chunk hold the input's frames one by one, as far as it
/// has whole frames, and silence behind them.
pub proof fn chunks_hold_the_input(input: Seq<F32Bits>, i: int)
    requires
        0 <= i < 256,
    ensures
        chunk_channel(input, 0).len() == 256,
        chunk_channel(input, 1).len() == 256,
        2 * i + 1 < input.len() ==> chunk_channel(input, 0)[i] == input[2 * i] && chunk_channel(
            input,
            1,
        )[i] == input[2 * i + 1],
        2 * i + 1 >= input.len() ==> chunk_channel(input, 0)[i].bits == 0 && chunk_channel(
            input,
            1,
        )[i].bits == 0,
{
}

/// As many frames are joined as both channels have and the output has room
/// for, and not one less.
pub proof fn joining_stops_at_the_shortest(left: int, right: int, samples: int)
    requires
        0 <= left,
        0 <= right,
        0 <= samples,
    ensures
        ({
            let n = frames_joined(left, right, samples);
            &&& 0 <= n <= left
            &&& n <= right
            &&& 2 * n <= samples
            &&& n == left || n == right || 2 * n + 2 > samples
        }),
{
}

/// The time stretch takes a channel whole. A resampler takes it in chunks of
/// one size, which hold its frames one after the other and silence behind the
/// last, and no chunk is all silence.
pub proof fn second_stages_take_the_whole_channel(signal: Seq<F32Bits>, k: int, j: int)
    ensures
        second_input(signal, true) == seq![signal],
        256 * second_input(signal, false).len() >= signal.len(),
        256 * second_input(signal, false).len() < signal.len() + 256,
        0 <= k < second_input(signal, false).len() ==> second_input(signal, false)[k].len() == 256,
        0 <= k < second_input(signal, false).len() && 0 <= j < 256 ==> second_input(
            signal,
            false,
        )[k][j] == (if 256 * k + j < signal.len() {
            signal[256 * k + j]
        } else {
            F32Bits { bits: 0 }
        }),
{
    assert(second_input(signal, true) =~= seq![signal]);
}

/// The frames of a channel are shared out among its chunks: every chunk but
/// the last is full, and the last ends with the channel.
pub proof fn real_frames_add_up(frames: int, k: int)
    requires
        0 <= k < chunks_for(frames),
        0 < frames,
    ensures
        0 < real_frames(frames, k) <= 256,
        256 * k + real_frames(frames, k) <= frames,
        real_frames(frames, k) == 256 || 256 * k + real_frames(frames, k) == frames,
        k == chunks_for(frames) - 1 ==> 256 * k + real_frames(frames, k) == frames,
{
}

} // verus!
