//! Decode handles, the errors of the decode pipeline and the service that
//! the audio thread reads from.
use vstd::prelude::*;

use crate::audio::slots::{
    generation_after, generation_for, generation_of, handle_number, slot_of, SlotTable, GENERATIONS,
};
use crate::f32_bits::{F32Bits, ZERO_BITS};
use crate::state::TrackRef;
use crate::text::{decimal, decimals_are_tight, occurs_in, pieces_occur};
use vstd::string::*;

verus! {

/// Decoder slots that can be open at the same time.
pub const MAX_DECODE_SLOTS: usize = 16;

/// Ring capacity in interleaved samples: half a second of stereo at 48 kHz.
pub const RING_SAMPLES_500MS: usize = 48_000;

/// Paths with this prefix name a source registered in memory.
pub const MEM_PREFIX: &'static str = "mem://";

/// Capacity of the side channel for failures after a successful open.
pub const MID_STREAM_FAILURE_CAPACITY: usize = 64;

/// Wire category of a decode or resample failure in mid-track.
pub const MID_STREAM_CATEGORY: &'static str = "mid_stream_decode_failure";

/// Wire category of a decoder thread that panicked.
pub const DECODER_THREAD_PANIC_CATEGORY: &'static str = "decoder_thread_panic";

/// The number of the empty handle.
pub const NO_HANDLE: u32 = 0xFFFF_FFFF;

/// Failure of a decoder thread after its track was opened.
#[derive(Debug)]
pub enum MidStreamFailureKind {
    /// The container or codec gave up in mid-track.
    DecodeFailed(String),
    /// A chunk could not be resampled.
    ResampleFailed(String),
    /// The decoder thread panicked.
    ThreadPanic(String),
}

impl MidStreamFailureKind {
    /// Wire category of a failure.
    pub open spec fn category_spec(self) -> Seq<char> {
        match self {
            MidStreamFailureKind::DecodeFailed(_) => MID_STREAM_CATEGORY@,
            MidStreamFailureKind::ResampleFailed(_) => MID_STREAM_CATEGORY@,
            MidStreamFailureKind::ThreadPanic(_) => DECODER_THREAD_PANIC_CATEGORY@,
        }
    }

    /// Text of a failure.
    pub open spec fn text(self) -> Seq<char> {
        match self {
            MidStreamFailureKind::DecodeFailed(s) => s@,
            MidStreamFailureKind::ResampleFailed(s) => s@,
            MidStreamFailureKind::ThreadPanic(s) => s@,
        }
    }

    /// Stable wire category.
    pub fn category(&self) -> (r: &'static str)
        ensures
            r@ == self.category_spec(),
    {
        match self {
            MidStreamFailureKind::DecodeFailed(_) => MID_STREAM_CATEGORY,
            MidStreamFailureKind::ResampleFailed(_) => MID_STREAM_CATEGORY,
            MidStreamFailureKind::ThreadPanic(_) => DECODER_THREAD_PANIC_CATEGORY,
        }
    }

    /// Human-readable text for the wire.
    pub fn message(&self) -> (r: &str)
        ensures
            r@ == self.text(),
    {
        match self {
            MidStreamFailureKind::DecodeFailed(s) => s.as_str(),
            MidStreamFailureKind::ResampleFailed(s) => s.as_str(),
            MidStreamFailureKind::ThreadPanic(s) => s.as_str(),
        }
    }
}

/// A failure as it travels to the bridge.
#[derive(Debug)]
pub struct MidStreamFailure {
    pub track_id: String,
    /// Letter of the deck that the load was for, where it is known.
    pub deck: Option<char>,
    pub kind: MidStreamFailureKind,
}

/// Why a track could not be opened. The deck then stays as it was.
#[derive(Debug)]
pub enum DecodeError {
    NoFreeSlot,
    Io { path: String, source: String },
    Probe(String),
    NoTrack,
    Resampler(String),
    UnknownInlineSource(String),
    Spawn(String),
}

impl DecodeError {
    /// Text of an error.
    pub open spec fn text(self) -> Seq<char> {
        match self {
            DecodeError::NoFreeSlot => "decode slot table exhausted (max 16)"@,
            DecodeError::Io { path, source } => "io error opening "@ + path@ + ": "@ + source@,
            DecodeError::Probe(s) => "symphonia probe failed: "@ + s@,
            DecodeError::NoTrack => "no default audio track in container"@,
            DecodeError::Resampler(s) => "rubato resampler init failed: "@ + s@,
            DecodeError::UnknownInlineSource(s) => "track id `"@ + s@
                + "` is reserved for inline test sources but no source registered"@,
            DecodeError::Spawn(s) => "failed to spawn decoder thread: "@ + s@,
        }
    }

    /// Human-readable text.
    pub fn message(&self) -> (r: String)
        ensures
            r@ == self.text(),
    {
        match self {
            DecodeError::NoFreeSlot => "decode slot table exhausted (max 16)".to_owned(),
            DecodeError::Io { path, source } => "io error opening ".to_owned().concat(
                path.as_str(),
            ).concat(": ").concat(source.as_str()),
            DecodeError::Probe(s) => "symphonia probe failed: ".to_owned().concat(s.as_str()),
            DecodeError::NoTrack => "no default audio track in container".to_owned(),
            DecodeError::Resampler(s) => "rubato resampler init failed: ".to_owned().concat(
                s.as_str(),
            ),
            DecodeError::UnknownInlineSource(s) => "track id `".to_owned().concat(
                s.as_str(),
            ).concat("` is reserved for inline test sources but no source registered"),
            DecodeError::Spawn(s) => "failed to spawn decoder thread: ".to_owned().concat(
                s.as_str(),
            ),
        }
    }
}

/// Opaque handle into the decoder slot table.
#[derive(Clone, Copy, Debug, PartialEq, Eq, Hash, Structural)]
pub struct DecodeHandle(pub u32);

impl DecodeHandle {
    /// The handle of no track.
    pub open spec fn none_spec() -> DecodeHandle {
        DecodeHandle(NO_HANDLE)
    }

    /// The handle of no track.
    pub fn none() -> (r: DecodeHandle)
        ensures
            r == DecodeHandle::none_spec(),
    {
        DecodeHandle(NO_HANDLE)
    }

    /// Whether the handle names a track.
    pub fn is_some(&self) -> (r: bool)
        ensures
            r == (*self != DecodeHandle::none_spec()),
    {
        self.0 != NO_HANDLE
    }
}

/// Four handles of one stem-separated track: vocals, drums, bass, other.
#[derive(Clone, Copy, Debug, PartialEq, Eq, Hash)]
pub struct StemHandle(pub [DecodeHandle; 4]);

impl StemHandle {
    /// The handle of no stems.
    pub fn none() -> (r: StemHandle)
        ensures
            forall|i: int| 0 <= i < 4 ==> #[trigger] r.0[i] == DecodeHandle::none_spec(),
    {
        let n: DecodeHandle = DecodeHandle::none();
        StemHandle([n, n, n, n])
    }

    /// Whether at least one stem is filled.
    pub fn is_some(&self) -> (r: bool)
        ensures
            r == exists|i: int|
                0 <= i < 4 && #[trigger] self.0[i] != DecodeHandle::none_spec(),
    {
        let mut i: usize = 0;
        while i < 4
            invariant
                i <= 4,
                forall|j: int| 0 <= j < i ==> #[trigger] self.0[j] == DecodeHandle::none_spec(),
            decreases 4 - i,
        {
            if self.0[i].is_some() {
                return true;
            }
            i += 1;
        }
        false
    }

    /// The handle of one stem; the empty handle past the fourth.
    pub fn get(&self, stem_idx: usize) -> (r: DecodeHandle)
        ensures
            r == (if stem_idx < 4 {
                self.0[stem_idx as int]
            } else {
                DecodeHandle::none_spec()
            }),
    {
        if stem_idx < 4 {
            self.0[stem_idx]
        } else {
            DecodeHandle::none()
        }
    }
}

/// Ending that marks the id of stem `i`.
pub open spec fn stem_suffix(i: int) -> Seq<char> {
    if i == 0 {
        "::stem0"@
    } else if i == 1 {
        "::stem1"@
    } else if i == 2 {
        "::stem2"@
    } else {
        "::stem3"@
    }
}

/// What a slot was opened for.
pub struct SourceView {
    pub id: Seq<char>,
    pub path: Seq<char>,
    pub rate: u32,
}

/// A track, opened for a sample rate.
pub open spec fn source_of(track: TrackRef, rate: u32) -> SourceView {
    SourceView { id: track.id@, path: track.path@, rate }
}

/// One stem of a track: the track's id, marked, and the stem's own path.
pub open spec fn stem_source(track: TrackRef, path: String, rate: u32, i: int) -> SourceView {
    SourceView { id: track.id@ + stem_suffix(i), path: path@, rate }
}

/// Name one stem of a track.
pub fn stem_ref(track: &TrackRef, path: &String, i: usize) -> (r: TrackRef)
    requires
        i < 4,
    ensures
        forall|rate: u32| #[trigger]
            source_of(r, rate) == stem_source(*track, *path, rate, i as int),
{
    let suffix: &str = if i == 0 {
        "::stem0"
    } else if i == 1 {
        "::stem1"
    } else if i == 2 {
        "::stem2"
    } else {
        "::stem3"
    };
    TrackRef { id: track.id.clone().concat(suffix), path: path.clone() }
}

/// What to do next about a track's stems.
#[derive(Debug)]
pub enum StemStep {
    /// Open this stem, and tell what came of it.
    Open(TrackRef),
    /// Close this stem again.
    Close(DecodeHandle),
    /// Nothing; this is the outcome.
    Finished(Result<StemHandle, DecodeError>),
}

/// The four stems of a track on their way to being open. They are opened in
/// turn; once one fails, those that were opened are closed in turn.
pub struct StemOpening<'a> {
    track: &'a TrackRef,
    paths: &'a [String; 4],
    handles: [DecodeHandle; 4],
    opened: usize,
    closed: usize,
    error: Option<DecodeError>,
}

impl<'a> StemOpening<'a> {
    /// The counts lie in their ranges, and nothing is closed before a
    /// failure.
    pub closed spec fn wf(&self) -> bool {
        &&& self.opened <= 4
        &&& self.closed <= self.opened
        &&& self.error is Some ==> self.opened < 4
        &&& self.error is None ==> self.closed == 0
    }

    /// The handles of the stems opened so far.
    pub closed spec fn handles(&self) -> Seq<DecodeHandle> {
        self.handles@.take(self.opened as int)
    }

    /// How many of them have been seen to since the failure.
    pub closed spec fn closing(&self) -> int {
        self.closed as int
    }

    /// Why a stem could not be opened.
    pub closed spec fn failure(&self) -> Option<DecodeError> {
        self.error
    }

    /// What stem `i` is opened for.
    pub closed spec fn stem(&self, rate: u32, i: int) -> SourceView {
        stem_source(*self.track, self.paths[i], rate, i)
    }

    /// Moves left at most.
    pub closed spec fn moves_left(&self) -> int {
        if self.error is None {
            10 - self.opened
        } else {
            4 - self.closed
        }
    }

    /// No stem is open yet.
    pub fn begin(track: &'a TrackRef, paths: &'a [String; 4]) -> (r: Self)
        ensures
            r.wf(),
            r.handles() == Seq::<DecodeHandle>::empty(),
            r.failure() is None,
            r.closing() == 0,
            forall|rate: u32, i: int| #[trigger]
                r.stem(rate, i) == stem_source(*track, paths[i], rate, i),
    {
        let n: DecodeHandle = DecodeHandle::none();
        let r = StemOpening {
            track,
            paths,
            handles: [n, n, n, n],
            opened: 0,
            closed: 0,
            error: None,
        };
        assert(r.handles() =~= Seq::<DecodeHandle>::empty());
        r
    }

    /// What to do next: open the next stem, close the next one that was
    /// opened, or finish. The empty handle closes nothing, so it is passed
    /// over.
    pub fn next(&mut self) -> (r: StemStep)
        requires
            old(self).wf(),
        ensures
            match old(self).failure() {
                None => if old(self).handles().len() < 4 {
                    &&& *final(self) == *old(self)
                    &&& r matches StemStep::Open(part)
                    &&& forall|rate: u32| #[trigger]
                        source_of(part, rate) == old(self).stem(
                            rate,
                            old(self).handles().len() as int,
                        )
                } else {
                    r matches StemStep::Finished(Ok(s)) && s.0@ == old(self).handles()
                },
                Some(e) => match r {
                    StemStep::Open(_) => false,
                    StemStep::Close(h) => {
                        let at = final(self).closing() - 1;
                        &&& final(self).wf()
                        &&& final(self).handles() == old(self).handles()
                        &&& final(self).failure() == old(self).failure()
                        &&& final(self).moves_left() < old(self).moves_left()
                        &&& old(self).closing() <= at < old(self).handles().len()
                        &&& h == old(self).handles()[at]
                        &&& h != DecodeHandle::none_spec()
                        &&& forall|m: int|
                            old(self).closing() <= m < at ==> #[trigger] old(self).handles()[m]
                                == DecodeHandle::none_spec()
                        &&& forall|rate: u32, i: int| #[trigger]
                            final(self).stem(rate, i) == old(self).stem(rate, i)
                    },
                    StemStep::Finished(end) => {
                        &&& end == Err::<StemHandle, DecodeError>(e)
                        &&& forall|m: int|
                            old(self).closing() <= m < old(self).handles().len()
                                ==> #[trigger] old(self).handles()[m] == DecodeHandle::none_spec()
                    },
                },
            },
    {
        let n: usize = self.opened;
        if self.error.is_none() {
            if n < 4 {
                return StemStep::Open(stem_ref(self.track, &self.paths[n], n));
            }
            assert(self.handles@ =~= self.handles());
            return StemStep::Finished(Ok(StemHandle(self.handles)));
        }
        let mut i: usize = self.closed;
        while i < n
            invariant
                *self == *old(self),
                self.wf(),
                self.error is Some,
                n == self.opened,
                self.closed <= i <= n,
                forall|m: int|
                    self.closed <= m < i ==> #[trigger] self.handles()[m]
                        == DecodeHandle::none_spec(),
            decreases n - i,
        {
            let h: DecodeHandle = self.handles[i];
            assert(self.handles()[i as int] == h);
            if h.is_some() {
                self.closed = i + 1;
                assert(self.handles() == old(self).handles());
                return StemStep::Close(h);
            }
            i += 1;
        }
        match self.error.take() {
            Some(e) => StemStep::Finished(Err(e)),
            None => StemStep::Finished(Ok(StemHandle(self.handles))),
        }
    }

    /// Take the outcome of opening the next stem.
    pub fn answer(&mut self, outcome: Result<DecodeHandle, DecodeError>)
        requires
            old(self).wf(),
            old(self).failure() is None,
            old(self).handles().len() < 4,
        ensures
            final(self).wf(),
            final(self).closing() == 0,
            final(self).moves_left() < old(self).moves_left(),
            match outcome {
                Ok(h) => final(self).handles() == old(self).handles().push(h)
                    && final(self).failure() is None,
                Err(e) => final(self).handles() == old(self).handles() && final(self).failure()
                    == Some(e),
            },
            forall|rate: u32, i: int| #[trigger]
                final(self).stem(rate, i) == old(self).stem(rate, i),
    {
        match outcome {
            Ok(h) => {
                let n: usize = self.opened;
                self.handles[n] = h;
                self.opened = n + 1;
                assert(self.handles() =~= old(self).handles().push(h));
            },
            Err(e) => {
                self.error = Some(e);
            },
        }
    }
}

/// One request to open a track, and what came of it.
pub struct Attempt {
    pub source: SourceView,
    pub outcome: Result<DecodeHandle, DecodeError>,
}

/// The requests that opening a track's stems makes: the stems in turn, up to
/// the first that fails. The result is a handle of all four where none does,
/// and else the error of that one.
pub open spec fn stems_asked_for(
    asked: Seq<Attempt>,
    track: TrackRef,
    paths: [String; 4],
    rate: u32,
    r: Result<StemHandle, DecodeError>,
) -> bool {
    &&& 0 < asked.len() <= 4
    &&& forall|i: int|
        0 <= i < asked.len() ==> (#[trigger] asked[i]).source == stem_source(
            track,
            paths[i],
            rate,
            i,
        )
    &&& forall|i: int| 0 <= i < asked.len() - 1 ==> (#[trigger] asked[i]).outcome is Ok
    &&& match r {
        Ok(s) => asked.len() == 4 && forall|i: int|
            0 <= i < 4 ==> (#[trigger] asked[i]).outcome == Ok::<DecodeHandle, DecodeError>(s.0[i]),
        Err(e) => asked.last().outcome == Err::<DecodeHandle, DecodeError>(e),
    }
}

/// The handles that came of requests, as far as those were granted.
pub open spec fn handles_of(asked: Seq<Attempt>) -> Seq<DecodeHandle>
    decreases asked.len(),
{
    if asked.len() == 0 {
        Seq::empty()
    } else {
        match asked.last().outcome {
            Ok(h) => handles_of(asked.drop_last()).push(h),
            Err(_) => handles_of(asked.drop_last()),
        }
    }
}

/// No handle names the slot.
pub open spec fn unnamed(handles: Seq<DecodeHandle>, slot: int) -> bool {
    forall|i: int| 0 <= i < handles.len() ==> slot_of(#[trigger] handles[i]) != slot
}

/// The first `n` handles of a stem handle that name a track, in order.
pub open spec fn filled(s: StemHandle, n: int) -> Seq<DecodeHandle>
    decreases n,
{
    if n <= 0 {
        Seq::empty()
    } else if s.0[n - 1] == DecodeHandle::none_spec() {
        filled(s, n - 1)
    } else {
        filled(s, n - 1).push(s.0[n - 1])
    }
}

/// The handles of a stem handle that name a track, in order.
pub fn filled_handles(s: StemHandle) -> (r: Vec<DecodeHandle>)
    ensures
        r@ == filled(s, 4),
{
    let mut out: Vec<DecodeHandle> = Vec::new();
    let mut i: usize = 0;
    while i < 4
        invariant
            i <= 4,
            out@ == filled(s, i as int),
        decreases 4 - i,
    {
        let h: DecodeHandle = s.0[i];
        if h.is_some() {
            out.push(h);
        }
        i += 1;
    }
    out
}

/// Closing stems leaves a slot open: none of the filled ones names it.
pub open spec fn leaves_open(s: StemHandle, slot: int) -> bool {
    forall|i: int|
        0 <= i < 4 ==> #[trigger] s.0[i] == DecodeHandle::none_spec() || slot_of(s.0[i]) != slot
}

/// Opens and closes decoded tracks on the control thread.
pub trait DecodeService {
    /// Whether the service is in a state that its methods accept.
    spec fn valid(&self) -> bool;

    /// The slots that are open.
    spec fn open_set(&self) -> Set<int>;

    /// What a slot was opened for last.
    spec fn source(&self, slot: int) -> SourceView;

    /// The requests to open a track so far.
    spec fn attempts(&self) -> Seq<Attempt>;

    /// The handles that were to be closed so far.
    spec fn closings(&self) -> Seq<DecodeHandle>;

    /// Open a track. On success one slot more is open, the one that the
    /// handle names, and it is not the empty handle; on failure the same
    /// slots are open as before.
    fn open(&mut self, track: &TrackRef, target_sample_rate: u32) -> (r: Result<
        DecodeHandle,
        DecodeError,
    >)
        requires
            old(self).valid(),
        ensures
            final(self).valid(),
            final(self).attempts() == old(self).attempts().push(
                Attempt { source: source_of(*track, target_sample_rate), outcome: r },
            ),
            final(self).closings() == old(self).closings(),
            match r {
                Ok(h) => {
                    &&& h != DecodeHandle::none_spec()
                    &&& !old(self).open_set().contains(slot_of(h))
                    &&& final(self).open_set() == old(self).open_set().insert(slot_of(h))
                    &&& final(self).source(slot_of(h)) == source_of(*track, target_sample_rate)
                    &&& forall|k: int|
                        k != slot_of(h) ==> #[trigger] final(self).source(k) == old(self).source(k)
                },
                Err(_) => {
                    &&& final(self).open_set() == old(self).open_set()
                    &&& forall|k: int| #[trigger] final(self).source(k) == old(self).source(k)
                },
            },
    ;

    /// Close the slot that a handle names. The empty handle closes nothing.
    fn close(&mut self, handle: DecodeHandle)
        requires
            old(self).valid(),
        ensures
            final(self).valid(),
            final(self).open_set() == (if handle == DecodeHandle::none_spec() {
                old(self).open_set()
            } else {
                old(self).open_set().remove(slot_of(handle))
            }),
            forall|k: int| #[trigger] final(self).source(k) == old(self).source(k),
            final(self).attempts() == old(self).attempts(),
            final(self).closings() == old(self).closings().push(handle),
    ;

    /// Reads that ran out of samples since the service started.
    fn underrun_count(&self) -> u64;

    /// Open the four stems of a track as one handle. They are asked for in
    /// turn, and the call succeeds where each of them opens. If one of them
    /// fails, no more are asked for, and those already opened are closed
    /// again, once each and in turn, before its error is returned.
    fn open_stems(&mut self, track: &TrackRef, stem_paths: &[String; 4], target_sample_rate: u32)
        -> (r: Result<StemHandle, DecodeError>)
        requires
            old(self).valid(),
        ensures
            final(self).valid(),
            old(self).attempts().is_prefix_of(final(self).attempts()),
            stems_asked_for(
                final(self).attempts().skip(old(self).attempts().len() as int),
                *track,
                *stem_paths,
                target_sample_rate,
                r,
            ),
            forall|k: int|
                unnamed(
                    handles_of(
                        final(self).attempts().skip(old(self).attempts().len() as int),
                    ),
                    k,
                ) ==> #[trigger] final(self).source(k) == old(self).source(k),
            match r {
                Ok(s) => {
                    &&& forall|i: int|
                        0 <= i < 4 ==> !old(self).open_set().contains(
                            slot_of(#[trigger] s.0[i]),
                        )
                    &&& forall|i: int, j: int|
                        0 <= i < j < 4 ==> slot_of(#[trigger] s.0[i]) != slot_of(
                            #[trigger] s.0[j],
                        )
                    &&& forall|i: int|
                        0 <= i < 4 ==> final(self).source(slot_of(#[trigger] s.0[i]))
                            == stem_source(*track, stem_paths[i], target_sample_rate, i)
                    &&& final(self).open_set() == old(self).open_set().insert(
                        slot_of(s.0[0]),
                    ).insert(slot_of(s.0[1])).insert(slot_of(s.0[2])).insert(slot_of(s.0[3]))
                    &&& final(self).closings() == old(self).closings()
                },
                Err(_) => {
                    &&& final(self).open_set() == old(self).open_set()
                    &&& final(self).closings() == old(self).closings() + handles_of(
                        final(self).attempts().skip(old(self).attempts().len() as int),
                    )
                },
            },
    {
        let mut stems: StemOpening = StemOpening::begin(track, stem_paths);
        let ghost start = self.open_set();
        let ghost base = self.attempts();
        let ghost shut = self.closings();
        assert(shut + stems.handles().take(0) =~= shut);
        loop
            invariant
                start == old(self).open_set(),
                base == old(self).attempts(),
                shut == old(self).closings(),
                0 <= stems.closing() <= stems.handles().len(),
                stems.failure() is None ==> stems.closing() == 0,
                self.closings() == shut + stems.handles().take(stems.closing()),
                forall|m: int|
                    0 <= m < stems.handles().len() ==> #[trigger] stems.handles()[m]
                        != DecodeHandle::none_spec(),
                base.is_prefix_of(self.attempts()),
                self.attempts().len() == base.len() + stems.handles().len() + (
                if stems.failure() is Some {
                    1int
                } else {
                    0
                }),
                forall|m: int|
                    0 <= m < stems.handles().len() ==> self.attempts()[base.len() + m] == (Attempt {
                        source: stem_source(*track, stem_paths[m], target_sample_rate, m),
                        outcome: Ok(#[trigger] stems.handles()[m]),
                    }),
                stems.failure() matches Some(e) ==> stems.handles().len() < 4
                    && self.attempts().last() == (Attempt {
                    source: stem_source(
                        *track,
                        stem_paths[stems.handles().len() as int],
                        target_sample_rate,
                        stems.handles().len() as int,
                    ),
                    outcome: Err(e),
                }),
                self.valid(),
                forall|k: int|
                    unnamed(stems.handles(), k) ==> #[trigger] self.source(k) == old(self).source(
                        k,
                    ),
                stems.wf(),
                stems.handles().len() <= 4,
                distinct_new(start, stems.handles()),
                forall|rate: u32, i: int| #[trigger]
                    stems.stem(rate, i) == stem_source(*track, stem_paths[i], rate, i),
                stems.failure() is None ==> {
                    &&& holds_from(start, stems.handles(), 0, self.open_set())
                    &&& forall|m: int|
                        0 <= m < stems.handles().len() ==> self.source(
                            slot_of(#[trigger] stems.handles()[m]),
                        ) == stem_source(*track, stem_paths[m], target_sample_rate, m)
                },
                stems.failure() is Some ==> holds_from(
                    start,
                    stems.handles(),
                    stems.closing(),
                    self.open_set(),
                ),
            decreases stems.moves_left(),
        {
            let ghost before = stems.handles();
            let ghost from = stems.closing();
            let ghost prev = self.open_set();
            match stems.next() {
                StemStep::Open(part) => {
                    let outcome: Result<DecodeHandle, DecodeError> = self.open(
                        &part,
                        target_sample_rate,
                    );
                    let ghost came = outcome;
                    stems.answer(outcome);
                    proof {
                        assert(source_of(part, target_sample_rate) == stem_source(
                            *track,
                            stem_paths[before.len() as int],
                            target_sample_rate,
                            before.len() as int,
                        ));
                        assert(stems.handles().take(0) =~= before.take(0));
                        if let Ok(h) = came {
                            lemma_opened_step(start, before, prev, h);
                            assert forall|k: int| unnamed(before.push(h), k) implies
                                #[trigger] self.source(k) == old(self).source(k) by {
                                assert(slot_of(before.push(h)[before.len() as int]) != k);
                                assert forall|i: int| 0 <= i < before.len() implies slot_of(
                                    #[trigger] before[i],
                                ) != k by {
                                    assert(slot_of(before.push(h)[i]) != k);
                                }
                            }
                        }
                    }
                },
                StemStep::Close(h) => {
                    self.close(h);
                    proof {
                        lemma_close_step(start, before, from, prev);
                        assert(shut + before.take(from + 1) =~= (shut + before.take(from)).push(h));
                    }
                },
                StemStep::Finished(outcome) => {
                    proof {
                        let asked = self.attempts().skip(base.len() as int);
                        assert forall|m: int| 0 <= m < before.len() implies #[trigger] asked[m] == (
                        Attempt {
                            source: stem_source(*track, stem_paths[m], target_sample_rate, m),
                            outcome: Ok(before[m]),
                        }) by {}
                        if outcome is Ok {
                            lemma_all_open(start, before, self.open_set());
                            lemma_handles_of(asked, before);
                            assert(shut + before.take(0) =~= shut);
                        } else {
                            if from < before.len() {
                                assert(before[from] == DecodeHandle::none_spec());
                            }
                            assert(before.take(from) =~= before);
                            assert(self.open_set() =~= start);
                            assert(asked.drop_last() =~= asked.take(before.len() as int));
                            lemma_handles_of(asked.drop_last(), before);
                        }
                    }
                    return outcome;
                },
            }
        }
    }

    /// Close every stem of a handle that is filled, once each and in turn.
    fn close_stems(&mut self, handle: StemHandle)
        requires
            old(self).valid(),
        ensures
            final(self).valid(),
            forall|k: int|
                #[trigger] final(self).open_set().contains(k) <==> old(self).open_set().contains(k)
                    && leaves_open(handle, k),
            forall|k: int| #[trigger] final(self).source(k) == old(self).source(k),
            final(self).attempts() == old(self).attempts(),
            final(self).closings() == old(self).closings() + filled(handle, 4),
    {
        let handles: Vec<DecodeHandle> = filled_handles(handle);
        let n: usize = handles.len();
        let mut i: usize = 0;
        assert(handles@.take(0) =~= Seq::<DecodeHandle>::empty());
        assert(self.closings() + handles@.take(0) =~= self.closings());
        while i < n
            invariant
                i <= n,
                n == handles@.len(),
                handles@ == filled(handle, 4),
                self.valid(),
                self.attempts() == old(self).attempts(),
                self.closings() == old(self).closings() + handles@.take(i as int),
                forall|k: int| #[trigger] self.source(k) == old(self).source(k),
                forall|k: int|
                    #[trigger] self.open_set().contains(k) <==> old(self).open_set().contains(k)
                        && unnamed(handles@.take(i as int), k),
            decreases n - i,
        {
            let h: DecodeHandle = handles[i];
            let ghost before = self.open_set();
            let ghost done = handles@.take(i as int);
            proof {
                lemma_filled(handle, 4, i as int);
                assert(handles@.take(i + 1) =~= done.push(h));
                assert((old(self).closings() + done).push(h) =~= old(self).closings() + done.push(
                    h,
                ));
            }
            self.close(h);
            proof {
                assert forall|k: int| #[trigger]
                    self.open_set().contains(k) <==> old(self).open_set().contains(k) && unnamed(
                        done.push(h),
                        k,
                    ) by {
                    lemma_unnamed_push(done, h, k);
                    assert(self.open_set().contains(k) <==> before.contains(k) && k != slot_of(h));
                }
            }
            i += 1;
        }
        proof {
            assert(handles@.take(n as int) =~= handles@);
            assert forall|k: int| unnamed(handles@, k) <==> #[trigger] leaves_open(handle, k) by {
                lemma_filled_names(handle, k);
            }
        }
    }
}

proof fn lemma_unnamed_push(handles: Seq<DecodeHandle>, h: DecodeHandle, slot: int)
    ensures
        unnamed(handles.push(h), slot) <==> unnamed(handles, slot) && slot_of(h) != slot,
{
    let more = handles.push(h);
    if unnamed(more, slot) {
        assert(slot_of(more[handles.len() as int]) != slot);
        assert forall|i: int| 0 <= i < handles.len() implies slot_of(#[trigger] handles[i])
            != slot by {
            assert(slot_of(more[i]) != slot);
        }
    }
}

proof fn lemma_filled(s: StemHandle, n: int, i: int)
    requires
        0 <= i < filled(s, n).len(),
    ensures
        filled(s, n)[i] != DecodeHandle::none_spec(),
    decreases n,
{
    if n > 0 {
        let rest = filled(s, n - 1);
        if i < rest.len() {
            lemma_filled(s, n - 1, i);
        }
    }
}

proof fn lemma_filled_names(s: StemHandle, slot: int)
    ensures
        unnamed(filled(s, 4), slot) <==> leaves_open(s, slot),
{
    let none = DecodeHandle::none_spec();
    assert(filled(s, 0).len() == 0);
    assert forall|n: int| 1 <= n <= 4 implies (#[trigger] unnamed(filled(s, n), slot) <==> unnamed(
        filled(s, n - 1),
        slot,
    ) && (s.0[n - 1] == none || slot_of(s.0[n - 1]) != slot)) by {
        if s.0[n - 1] != none {
            lemma_unnamed_push(filled(s, n - 1), s.0[n - 1], slot);
        }
    }
    assert(unnamed(filled(s, 0), slot));
    assert(unnamed(filled(s, 1), slot) <==> (s.0[0] == none || slot_of(s.0[0]) != slot));
    assert(unnamed(filled(s, 2), slot) <==> unnamed(filled(s, 1), slot) && (s.0[1] == none
        || slot_of(s.0[1]) != slot));
    assert(unnamed(filled(s, 3), slot) <==> unnamed(filled(s, 2), slot) && (s.0[2] == none
        || slot_of(s.0[2]) != slot));
    assert(unnamed(filled(s, 4), slot) <==> unnamed(filled(s, 3), slot) && (s.0[3] == none
        || slot_of(s.0[3]) != slot));
}

/// The handles name slots that differ and are not in `start`.
pub open spec fn distinct_new(start: Set<int>, handles: Seq<DecodeHandle>) -> bool {
    &&& forall|i: int|
        0 <= i < handles.len() ==> !start.contains(slot_of(#[trigger] handles[i]))
    &&& forall|i: int, j: int|
        0 <= i < j < handles.len() ==> slot_of(#[trigger] handles[i]) != slot_of(
            #[trigger] handles[j],
        )
}

/// `now` holds the slots of `start`, and those of the handles from `from` on.
pub open spec fn holds_from(
    start: Set<int>,
    handles: Seq<DecodeHandle>,
    from: int,
    now: Set<int>,
) -> bool {
    forall|k: int| #[trigger]
        now.contains(k) <==> start.contains(k) || (exists|m: int|
            from <= m < handles.len() && k == slot_of(#[trigger] handles[m]))
}

proof fn lemma_opened_step(
    start: Set<int>,
    before: Seq<DecodeHandle>,
    prev: Set<int>,
    h: DecodeHandle,
)
    requires
        distinct_new(start, before),
        holds_from(start, before, 0, prev),
        !prev.contains(slot_of(h)),
    ensures
        distinct_new(start, before.push(h)),
        holds_from(start, before.push(h), 0, prev.insert(slot_of(h))),
        forall|m: int|
            0 <= m < before.len() ==> before.push(h)[m] == before[m] && slot_of(
                #[trigger] before[m],
            ) != slot_of(h),
{
    let after = before.push(h);
    let now = prev.insert(slot_of(h));
    assert forall|m: int| 0 <= m < before.len() implies slot_of(#[trigger] before[m]) != slot_of(
        h,
    ) by {
        assert(prev.contains(slot_of(before[m])));
    }
    assert forall|k: int| #[trigger] now.contains(k) <==> (start.contains(k) || (exists|m: int|
        0 <= m < after.len() && k == slot_of(#[trigger] after[m]))) by {
        if k == slot_of(h) {
            assert(k == slot_of(after[before.len() as int]));
        } else {
            if prev.contains(k) && !start.contains(k) {
                let m = choose|m: int| 0 <= m < before.len() && k == slot_of(#[trigger] before[m]);
                assert(k == slot_of(after[m]));
            }
            if exists|m: int| 0 <= m < after.len() && k == slot_of(#[trigger] after[m]) {
                let m = choose|m: int| 0 <= m < after.len() && k == slot_of(#[trigger] after[m]);
                assert(m < before.len());
                assert(k == slot_of(before[m]));
            }
        }
    }
}

proof fn lemma_close_step(
    start: Set<int>,
    handles: Seq<DecodeHandle>,
    from: int,
    prev: Set<int>,
)
    requires
        0 <= from < handles.len(),
        distinct_new(start, handles),
        holds_from(start, handles, from, prev),
    ensures
        holds_from(start, handles, from + 1, prev.remove(slot_of(handles[from]))),
{
}

proof fn lemma_all_open(start: Set<int>, handles: Seq<DecodeHandle>, end: Set<int>)
    requires
        handles.len() == 4,
        holds_from(start, handles, 0, end),
    ensures
        end == start.insert(slot_of(handles[0])).insert(slot_of(handles[1])).insert(
            slot_of(handles[2]),
        ).insert(slot_of(handles[3])),
{
    assert(end =~= start.insert(slot_of(handles[0])).insert(slot_of(handles[1])).insert(
        slot_of(handles[2]),
    ).insert(slot_of(handles[3])));
}

proof fn lemma_handles_of(asked: Seq<Attempt>, handles: Seq<DecodeHandle>)
    requires
        asked.len() == handles.len(),
        forall|m: int|
            0 <= m < handles.len() ==> (#[trigger] asked[m]).outcome == Ok::<
                DecodeHandle,
                DecodeError,
            >(handles[m]),
    ensures
        handles_of(asked) == handles,
    decreases asked.len(),
{
    if asked.len() > 0 {
        lemma_handles_of(asked.drop_last(), handles.drop_last());
        assert(handles.drop_last().push(handles.last()) =~= handles);
    } else {
        assert(handles =~= Seq::<DecodeHandle>::empty());
    }
}

/// Closing the same stems once more closes nothing: the slots that are open
/// stay open.
pub proof fn closing_stems_twice(before: Set<int>, once: Set<int>, twice: Set<int>, s: StemHandle)
    requires
        forall|k: int| #[trigger] once.contains(k) <==> before.contains(k) && leaves_open(s, k),
        forall|k: int| #[trigger] twice.contains(k) <==> once.contains(k) && leaves_open(s, k),
    ensures
        twice == once,
{
    assert(twice =~= once);
}

/// Sample rate and phase of one synthetic tone, packed into one word.
pub open spec fn packed(sample_rate: u32, phase: F32Bits) -> int {
    sample_rate * 0x1_0000_0000 + phase.bits
}

/// Pack a tone's state: the rate in the upper half, the phase in the lower.
pub fn pack_state(sample_rate: u32, phase: F32Bits) -> (r: u64)
    ensures
        r == packed(sample_rate, phase),
{
    let hi: u64 = sample_rate as u64;
    let lo: u64 = phase.bits as u64;
    assert((hi << 32u64) | lo == hi * 0x1_0000_0000 + lo) by (bit_vector)
        requires
            hi <= 0xFFFF_FFFF,
            lo <= 0xFFFF_FFFF,
    ;
    (hi << 32) | lo
}

/// Unpack a tone's state.
pub fn unpack_state(v: u64) -> (r: (u32, F32Bits))
    ensures
        v == packed(r.0, r.1),
{
    assert(v >> 32u64 == v / 0x1_0000_0000 && v >> 32u64 <= 0xFFFF_FFFF) by (bit_vector);
    assert(v & 0xFFFF_FFFFu64 == v % 0x1_0000_0000) by (bit_vector);
    ((v >> 32) as u32, F32Bits { bits: (v & 0xFFFF_FFFF) as u32 })
}

/// Packing keeps both halves apart: equal words come from equal states.
pub proof fn packing_is_injective(r1: u32, p1: F32Bits, r2: u32, p2: F32Bits)
    requires
        packed(r1, p1) == packed(r2, p2),
    ensures
        r1 == r2,
        p1 == p2,
{
}

/// A decode service for tests: every track opens, into a tone.
pub struct StubDecodeService {
    table: SlotTable,
    tones: Vec<u64>,
    sources: Ghost<Map<int, SourceView>>,
    attempts: Ghost<Seq<Attempt>>,
    closings: Ghost<Seq<DecodeHandle>>,
}

/// While the generations last, the handles that came so far carry generations
/// below `next`, and before the last of them only slot 0 has seen the first.
pub open spec fn handles_below(attempts: Seq<Attempt>, next: int) -> bool {
    attempts.len() < GENERATIONS ==> {
        &&& 1 <= next <= attempts.len() + 1
        &&& forall|i: int|
            0 <= i < attempts.len() ==> ((#[trigger] attempts[i]).outcome matches Ok(h)
                ==> 1 <= generation_of(h) < next && (next < GENERATIONS && generation_of(h) == 1
                ==> slot_of(h) == 0))
    }
}

impl StubDecodeService {
    /// Tone state of a slot.
    pub closed spec fn tone(&self, slot: int) -> int {
        self.tones@[slot] as int
    }

    /// Generation that the next handle gets.
    pub closed spec fn generation(&self) -> int {
        self.table.next_generation()
    }

    /// A service without open tracks.
    pub fn new() -> (r: Self)
        ensures
            r.valid(),
            r.open_set() == Set::<int>::empty(),
            r.attempts() == Seq::<Attempt>::empty(),
            r.closings() == Seq::<DecodeHandle>::empty(),
            r.generation() == 1,
            forall|i: int|
                0 <= i < MAX_DECODE_SLOTS ==> #[trigger] r.tone(i) == packed(
                    48_000,
                    F32Bits { bits: ZERO_BITS },
                ),
    {
        let mut tones: Vec<u64> = Vec::new();
        let mut i: usize = 0;
        while i < MAX_DECODE_SLOTS
            invariant
                i <= MAX_DECODE_SLOTS,
                tones@.len() == i,
                forall|j: int|
                    0 <= j < i ==> #[trigger] tones@[j] == packed(
                        48_000,
                        F32Bits { bits: ZERO_BITS },
                    ),
            decreases MAX_DECODE_SLOTS - i,
        {
            tones.push(pack_state(48_000, F32Bits { bits: ZERO_BITS }));
            i += 1;
        }
        StubDecodeService {
            table: SlotTable::new(),
            tones,
            sources: Ghost(Map::empty()),
            attempts: Ghost(Seq::empty()),
            closings: Ghost(Seq::empty()),
        }
    }

    /// State of the tone that a handle reaches, if it reaches one.
    pub fn tone_of(&self, handle: DecodeHandle) -> (r: Option<(u32, F32Bits)>)
        requires
            self.valid(),
        ensures
            match r {
                Some(t) => handle != DecodeHandle::none_spec() && self.open_set().contains(
                    slot_of(handle),
                ) && self.tone(slot_of(handle)) == packed(t.0, t.1),
                None => handle == DecodeHandle::none_spec() || !self.open_set().contains(
                    slot_of(handle),
                ),
            },
    {
        match self.table.slot_for(handle) {
            Some(slot) => Some(unpack_state(self.tones[slot])),
            None => None,
        }
    }

    /// Move the phase of the tone that a handle reaches.
    pub fn set_phase(&mut self, handle: DecodeHandle, phase: F32Bits)
        requires
            old(self).valid(),
        ensures
            final(self).valid(),
            final(self).open_set() == old(self).open_set(),
            forall|i: int|
                0 <= i < MAX_DECODE_SLOTS ==> if handle != DecodeHandle::none_spec()
                    && old(self).open_set().contains(slot_of(handle)) && i == slot_of(handle) {
                    exists|rate: u32| #[trigger]
                        packed(rate, phase) == final(self).tone(i) && exists|p: F32Bits|
                            #[trigger] packed(rate, p) == old(self).tone(i)
                } else {
                    #[trigger] final(self).tone(i) == old(self).tone(i)
                },
    {
        match self.table.slot_for(handle) {
            Some(slot) => {
                let (rate, p): (u32, F32Bits) = unpack_state(self.tones[slot]);
                let word: u64 = pack_state(rate, phase);
                assert(packed(rate, p) == self.tone(slot as int));
                self.tones.set(slot, word);
                assert(packed(rate, phase) == self.tone(slot as int));
            },
            None => {},
        }
    }
}

impl DecodeService for StubDecodeService {
    closed spec fn valid(&self) -> bool {
        &&& self.table.wf()
        &&& self.tones@.len() == MAX_DECODE_SLOTS
        &&& handles_below(self.attempts@, self.table.next_generation())
        &&& self.attempts@.len() < GENERATIONS && self.table.next_generation() == 1
            ==> forall|k: int| !#[trigger] self.table.open_slots().contains(k)
    }

    closed spec fn open_set(&self) -> Set<int> {
        self.table.open_slots()
    }

    closed spec fn source(&self, slot: int) -> SourceView {
        self.sources@[slot]
    }

    closed spec fn attempts(&self) -> Seq<Attempt> {
        self.attempts@
    }

    closed spec fn closings(&self) -> Seq<DecodeHandle> {
        self.closings@
    }

    /// Open a track into the lowest free slot. Fails exactly when all slots
    /// are taken. The handle is none of those that came before, as long as
    /// the generations last.
    fn open(&mut self, track: &TrackRef, target_sample_rate: u32) -> (r: Result<
        DecodeHandle,
        DecodeError,
    >)
        ensures
            match r {
                Ok(h) => {
                    &&& forall|j: int|
                        0 <= j < slot_of(h) ==> #[trigger] old(self).open_set().contains(j)
                    &&& h.0 == handle_number(
                        slot_of(h),
                        generation_for(slot_of(h), old(self).generation()),
                    )
                    &&& final(self).generation() == generation_after(old(self).generation())
                    &&& old(self).attempts().len() < GENERATIONS ==> forall|i: int|
                        0 <= i < old(self).attempts().len() ==> (
                        #[trigger] old(self).attempts()[i]).outcome != Ok::<
                            DecodeHandle,
                            DecodeError,
                        >(h)
                    &&& final(self).tone(slot_of(h)) == packed(
                        target_sample_rate,
                        F32Bits { bits: ZERO_BITS },
                    )
                },
                Err(e) => {
                    &&& e is NoFreeSlot
                    &&& final(self).generation() == old(self).generation()
                    &&& forall|j: int|
                        0 <= j < MAX_DECODE_SLOTS ==> #[trigger] old(self).open_set().contains(j)
                },
            },
    {
        let r: Result<DecodeHandle, DecodeError> = match self.table.claim() {
            Ok(slot) => {
                assert(self.attempts@.len() < GENERATIONS && self.generation() == 1 && slot > 0
                    ==> old(self).open_set().contains(0));
                self.tones.set(slot, pack_state(target_sample_rate, F32Bits { bits: ZERO_BITS }));
                self.sources = Ghost(
                    self.sources@.insert(slot as int, source_of(*track, target_sample_rate)),
                );
                self.table.finish_open(slot, Ok(()))
            },
            Err(e) => Err(e),
        };
        let ghost attempt = Attempt { source: source_of(*track, target_sample_rate), outcome: r };
        self.attempts = Ghost(self.attempts@.push(attempt));
        r
    }

    fn close(&mut self, handle: DecodeHandle) {
        let _freed: Option<usize> = self.table.close(handle);
        self.closings = Ghost(self.closings@.push(handle));
    }

    fn underrun_count(&self) -> (r: u64)
        ensures
            r == self.underruns_spec(),
    {
        self.table.underrun_count()
    }
}

impl StubDecodeService {
    /// Reads that ran out of samples: a tone never does.
    pub closed spec fn underruns_spec(&self) -> int {
        self.table.underrun_total()
    }
}

/// The empty handle is all ones.
pub proof fn the_empty_handle()
    ensures
        DecodeHandle::none_spec().0 == 0xFFFF_FFFF,
{
}

/// A failure in mid-track is told by its own text, and a thread that panicked
/// is told apart from a stream that broke.
pub proof fn failures_tell_their_text(s: String, t: String)
    ensures
        MidStreamFailureKind::DecodeFailed(s).text() == s@,
        MidStreamFailureKind::ResampleFailed(s).text() == s@,
        MidStreamFailureKind::ThreadPanic(s).text() == s@,
        MidStreamFailureKind::DecodeFailed(s).category_spec() == MidStreamFailureKind::ResampleFailed(
            t,
        ).category_spec(),
        MidStreamFailureKind::DecodeFailed(s).category_spec()
            != MidStreamFailureKind::ThreadPanic(t).category_spec(),
        MidStreamFailureKind::DecodeFailed(s).category_spec() == "mid_stream_decode_failure"@,
        MidStreamFailureKind::ThreadPanic(s).category_spec() == "decoder_thread_panic"@,
{
    reveal_strlit("mid_stream_decode_failure");
    reveal_strlit("decoder_thread_panic");
    assert("mid_stream_decode_failure"@.len() != "decoder_thread_panic"@.len());
}

/// The text of an error tells what it was about.
pub proof fn errors_tell_what_they_are_about(s: String, t: String)
    ensures
        occurs_in(s@, (DecodeError::Io { path: s, source: t }).text()),
        occurs_in(t@, (DecodeError::Io { path: s, source: t }).text()),
        occurs_in(s@, DecodeError::Probe(s).text()),
        occurs_in(s@, DecodeError::Resampler(s).text()),
        occurs_in(s@, DecodeError::UnknownInlineSource(s).text()),
        occurs_in(s@, DecodeError::Spawn(s).text()),
        (DecodeError::Io { path: s, source: t }).text() == "io error opening "@ + s@ + ": "@ + t@,
        DecodeError::Probe(s).text() == "symphonia probe failed: "@ + s@,
        DecodeError::Spawn(s).text() == "failed to spawn decoder thread: "@ + s@,
        DecodeError::Resampler(s).text() == "rubato resampler init failed: "@ + s@,
{
    let none = Seq::<char>::empty();
    let io = "io error opening "@ + s@ + ": "@ + t@;
    pieces_occur("io error opening "@, s@, ": "@ + t@, none);
    assert("io error opening "@ + s@ + (": "@ + t@) =~= io);
    pieces_occur("io error opening "@ + s@ + ": "@, t@, none, none);
    assert("io error opening "@ + s@ + ": "@ + t@ + none =~= io);
    pieces_occur("symphonia probe failed: "@, s@, none, none);
    assert("symphonia probe failed: "@ + s@ + none =~= "symphonia probe failed: "@ + s@);
    pieces_occur("rubato resampler init failed: "@, s@, none, none);
    assert("rubato resampler init failed: "@ + s@ + none =~= "rubato resampler init failed: "@ + s@);
    pieces_occur(
        "track id `"@,
        s@,
        "` is reserved for inline test sources but no source registered"@,
        none,
    );
    pieces_occur("failed to spawn decoder thread: "@, s@, none, none);
    assert("failed to spawn decoder thread: "@ + s@ + none =~= "failed to spawn decoder thread: "@
        + s@);
}

/// A track is opened by its own id, from its own path and for the rate that
/// is asked for. A stem is opened by its track's id with its number behind
/// it, from its own path.
pub proof fn sources_are_the_tracks_own(track: TrackRef, path: String, rate: u32, i: int)
    requires
        0 <= i < 4,
    ensures
        source_of(track, rate).id == track.id@,
        source_of(track, rate).path == track.path@,
        source_of(track, rate).rate == rate,
        stem_source(track, path, rate, i).id == track.id@ + ("::stem"@ + decimal(i as nat)),
        stem_source(track, path, rate, i).path == path@,
        stem_source(track, path, rate, i).rate == rate,
{
    reveal_strlit("::stem");
    reveal_strlit("::stem0");
    reveal_strlit("::stem1");
    reveal_strlit("::stem2");
    reveal_strlit("::stem3");
    decimals_are_tight(i as nat);
    assert(stem_suffix(i) =~= "::stem"@ + decimal(i as nat));
}

/// Requests for stems are for the track's stems in turn, each for its own
/// path, and stop at the first that fails; all four are granted just where
/// the result is a handle, which then holds theirs in turn.
pub proof fn stems_are_asked_for_in_turn(
    asked: Seq<Attempt>,
    track: TrackRef,
    paths: [String; 4],
    rate: u32,
    r: Result<StemHandle, DecodeError>,
    i: int,
)
    requires
        stems_asked_for(asked, track, paths, rate, r),
        0 <= i < asked.len(),
    ensures
        1 <= asked.len() <= 4,
        asked[i].source.path == paths[i]@,
        asked[i].source.id == track.id@ + ("::stem"@ + decimal(i as nat)),
        asked[i].source.rate == rate,
        i < asked.len() - 1 ==> asked[i].outcome is Ok,
        r is Ok <==> asked.len() == 4 && asked[3].outcome is Ok,
        r matches Ok(s) ==> asked[i].outcome == Ok::<DecodeHandle, DecodeError>(s.0[i]),
        r matches Err(e) ==> asked[asked.len() - 1].outcome == Err::<DecodeHandle, DecodeError>(e),
{
    sources_are_the_tracks_own(track, paths[i], rate, i);
    assert(asked[asked.len() - 1] == asked.last());
}

/// The handles that came of requests are those of the granted ones, in order.
pub proof fn granted_requests_give_handles(
    asked: Seq<Attempt>,
    source: SourceView,
    h: DecodeHandle,
    e: DecodeError,
)
    ensures
        handles_of(Seq::empty()) == Seq::<DecodeHandle>::empty(),
        handles_of(asked.push(Attempt { source, outcome: Ok(h) })) == handles_of(asked).push(h),
        handles_of(asked.push(Attempt { source, outcome: Err(e) })) == handles_of(asked),
{
    assert(asked.push(Attempt { source, outcome: Ok(h) }).drop_last() =~= asked);
    assert(asked.push(Attempt { source, outcome: Err(e) }).drop_last() =~= asked);
}

/// The filled handles of stems are those that are not empty, in order; and
/// closing them leaves just the slots open that none of them names.
pub proof fn filled_stems_are_closed(s: StemHandle, slot: int)
    ensures
        filled(s, 4) == s.0@.filter(|h: DecodeHandle| h.0 != 0xFFFF_FFFF),
        leaves_open(s, slot) <==> forall|i: int|
            0 <= i < 4 && (#[trigger] s.0[i]).0 != 0xFFFF_FFFF ==> s.0[i].0 as int / 0x1000_0000
                != slot,
{
    lemma_filled_is_filter(s, 4);
    assert(s.0@.take(4) =~= s.0@);
}

proof fn lemma_filled_is_filter(s: StemHandle, n: int)
    requires
        0 <= n <= 4,
    ensures
        filled(s, n) == s.0@.take(n).filter(|h: DecodeHandle| h.0 != 0xFFFF_FFFF),
    decreases n,
{
    reveal(Seq::filter);
    if n > 0 {
        lemma_filled_is_filter(s, n - 1);
        assert(s.0@.take(n).drop_last() =~= s.0@.take(n - 1));
        assert(s.0@.take(n).last() == s.0[n - 1]);
    } else {
        assert(s.0@.take(0).len() == 0);
    }
}

/// A slot is unnamed where no handle carries its number.
pub proof fn unnamed_slots_have_no_handle(handles: Seq<DecodeHandle>, slot: int)
    ensures
        unnamed(handles, slot) <==> forall|i: int|
            0 <= i < handles.len() ==> (#[trigger] handles[i]).0 as int / 0x1000_0000 != slot,
{
    assert forall|i: int| 0 <= i < handles.len() implies (slot_of(handles[i]) != slot <==> (
    #[trigger] handles[i]).0 as int / 0x1000_0000 != slot) by {}
    if unnamed(handles, slot) {
        assert forall|i: int| 0 <= i < handles.len() implies (#[trigger] handles[i]).0 as int
            / 0x1000_0000 != slot by {
            assert(slot_of(handles[i]) != slot);
        }
    }
}

/// A tone's state keeps its rate and its phase.
pub proof fn packing_keeps_rate_and_phase(rate: u32, phase: F32Bits)
    ensures
        packed(rate, phase) / 0x1_0000_0000 == rate,
        packed(rate, phase) % 0x1_0000_0000 == phase.bits,
{
}

} // verus!
