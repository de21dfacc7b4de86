//! Decisions of a decoder thread.
//!
//! The thread reads packets, decodes them and pushes samples; after each of
//! these it asks what to do next.
use crossbeam::channel::Sender;
use vstd::prelude::*;
use vstd::string::*;

use crate::audio::decode::{MidStreamFailure, MidStreamFailureKind, MEM_PREFIX};
use crate::channel::{self, try_send_failure, Offered};
use crate::text::{has_prefix, strip_prefix};

verus! {

/// Where a track's audio comes from.
#[derive(Debug)]
pub enum MediaOrigin {
    /// A source registered in memory under this key.
    Inline(String),
    /// A remote file.
    Http,
    /// A local file.
    File,
}

/// Where the audio behind a path comes from.
pub open spec fn origin_of(path: Seq<char>, r: MediaOrigin) -> bool {
    if MEM_PREFIX@.is_prefix_of(path) {
        r matches MediaOrigin::Inline(key) && key@ == path.skip(MEM_PREFIX@.len() as int)
    } else if "http://"@.is_prefix_of(path) || "https://"@.is_prefix_of(path) {
        r is Http
    } else {
        r is File
    }
}

/// Tell where a track's audio comes from.
pub fn media_origin(path: &str) -> (r: MediaOrigin)
    ensures
        origin_of(path@, r),
{
    match strip_prefix(path, MEM_PREFIX) {
        Some(key) => MediaOrigin::Inline(key.to_owned()),
        None => {
            if has_prefix(path, "http://") || has_prefix(path, "https://") {
                MediaOrigin::Http
            } else {
                MediaOrigin::File
            }
        },
    }
}

/// One track of a container.
#[derive(Clone, Copy, Debug, PartialEq, Eq, Structural)]
pub struct ContainerTrack {
    pub id: u32,
    /// Whether the container names a codec for the track.
    pub has_codec: bool,
    pub sample_rate: Option<u32>,
}

/// Pick the first track with a codec; its rate counts as the target's where
/// the container does not name one. None where no track has a codec.
pub fn pick_track(tracks: &Vec<ContainerTrack>, target_rate: u32) -> (r: Option<(usize, u32)>)
    ensures
        match r {
            Some((i, rate)) => {
                &&& i < tracks@.len()
                &&& tracks@[i as int].has_codec
                &&& forall|j: int| 0 <= j < i ==> !(#[trigger] tracks@[j]).has_codec
                &&& rate == match tracks@[i as int].sample_rate {
                    Some(n) => n,
                    None => target_rate,
                }
            },
            None => forall|j: int| 0 <= j < tracks@.len() ==> !(#[trigger] tracks@[j]).has_codec,
        },
{
    let mut i: usize = 0;
    while i < tracks.len()
        invariant
            i <= tracks@.len(),
            forall|j: int| 0 <= j < i ==> !(#[trigger] tracks@[j]).has_codec,
        decreases tracks@.len() - i,
    {
        let t: ContainerTrack = tracks[i];
        if t.has_codec {
            let rate: u32 = match t.sample_rate {
                Some(n) => n,
                None => target_rate,
            };
            return Some((i, rate));
        }
        i += 1;
    }
    None
}

/// What just happened on a decoder thread.
#[derive(Debug)]
pub enum DecoderEvent {
    /// The thread was asked to end.
    ShutDown,
    /// A packet of a track was read.
    PacketRead { track: u32 },
    /// The stream ended, or its tracks changed.
    StreamEnded,
    /// A packet could not be read.
    ReadFailed(String),
    /// A packet was decoded.
    Decoded,
    /// A packet was damaged in a way that the codec recovers from.
    PacketDamaged,
    /// A packet could not be decoded.
    DecodeFailed(String),
    /// The samples of a packet were pushed.
    Pushed,
    /// The samples of a packet could not be resampled.
    ResampleFailed(String),
}

/// What the thread does next.
#[derive(Debug)]
pub enum DecoderStep {
    ReadPacket,
    DecodePacket,
    PushSamples,
    /// End without a word.
    Stop,
    /// Report the failure and end.
    Fail(MidStreamFailure),
}

/// The failure that an event stands for, as a kind with its text.
pub open spec fn failure_text(event: DecoderEvent) -> Option<Seq<char>> {
    match event {
        DecoderEvent::ReadFailed(e) => Some("reader.next_packet failed: "@ + e@),
        DecoderEvent::DecodeFailed(e) => Some("decoder.decode failed: "@ + e@),
        DecoderEvent::ResampleFailed(e) => Some("rubato resample failed mid-stream: "@ + e@),
        _ => None,
    }
}

/// Whether `step` is what follows `event` on a thread that decodes `wanted`
/// of the track called `label`.
pub open spec fn follows(
    event: DecoderEvent,
    wanted: u32,
    label: Seq<char>,
    step: DecoderStep,
) -> bool {
    match event {
        DecoderEvent::ShutDown => step is Stop,
        DecoderEvent::StreamEnded => step is Stop,
        DecoderEvent::PacketRead { track } => if track == wanted {
            step is DecodePacket
        } else {
            step is ReadPacket
        },
        DecoderEvent::Decoded => step is PushSamples,
        DecoderEvent::PacketDamaged => step is ReadPacket,
        DecoderEvent::Pushed => step is ReadPacket,
        DecoderEvent::ReadFailed(_) => step matches DecoderStep::Fail(f) && f.track_id@ == label
            && f.deck is None && f.kind is DecodeFailed && Some(f.kind.text()) == failure_text(
            event,
        ),
        DecoderEvent::DecodeFailed(_) => step matches DecoderStep::Fail(f) && f.track_id@ == label
            && f.deck is None && f.kind is DecodeFailed && Some(f.kind.text()) == failure_text(
            event,
        ),
        DecoderEvent::ResampleFailed(_) => step matches DecoderStep::Fail(f) && f.track_id@
            == label && f.deck is None && f.kind is ResampleFailed && Some(f.kind.text())
            == failure_text(event),
    }
}

fn failure(label: &str, kind: MidStreamFailureKind) -> (r: MidStreamFailure)
    ensures
        r.track_id@ == label@,
        r.deck is None,
        r.kind == kind,
{
    MidStreamFailure { track_id: label.to_owned(), deck: None, kind }
}

/// Decide what a decoder thread does after an event. Packets of other tracks
/// and damaged packets are passed over; what cannot be recovered from is
/// reported once and ends the thread.
pub fn decoder_step(event: DecoderEvent, wanted: u32, label: &str) -> (r: DecoderStep)
    ensures
        follows(event, wanted, label@, r),
{
    match event {
        DecoderEvent::ShutDown => DecoderStep::Stop,
        DecoderEvent::StreamEnded => DecoderStep::Stop,
        DecoderEvent::PacketRead { track } => {
            if track == wanted {
                DecoderStep::DecodePacket
            } else {
                DecoderStep::ReadPacket
            }
        },
        DecoderEvent::Decoded => DecoderStep::PushSamples,
        DecoderEvent::PacketDamaged => DecoderStep::ReadPacket,
        DecoderEvent::Pushed => DecoderStep::ReadPacket,
        DecoderEvent::ReadFailed(e) => {
            let text: String = "reader.next_packet failed: ".to_owned().concat(e.as_str());
            DecoderStep::Fail(failure(label, MidStreamFailureKind::DecodeFailed(text)))
        },
        DecoderEvent::DecodeFailed(e) => {
            let text: String = "decoder.decode failed: ".to_owned().concat(e.as_str());
            DecoderStep::Fail(failure(label, MidStreamFailureKind::DecodeFailed(text)))
        },
        DecoderEvent::ResampleFailed(e) => {
            let text: String = "rubato resample failed mid-stream: ".to_owned().concat(e.as_str());
            DecoderStep::Fail(failure(label, MidStreamFailureKind::ResampleFailed(text)))
        },
    }
}

/// Text of a panic whose payload was none.
pub const OPAQUE_PANIC: &'static str = "decoder thread panicked (non-string payload)";

/// Text of a panic: its payload where that is text.
pub fn panic_payload_to_string(payload: Option<String>) -> (r: String)
    ensures
        r@ == match payload {
            Some(s) => s@,
            None => OPAQUE_PANIC@,
        },
{
    match payload {
        Some(s) => s,
        None => OPAQUE_PANIC.to_owned(),
    }
}

/// The failure that a panicked decoder thread reports.
pub fn panic_failure(track_id: String, payload: Option<String>) -> (r: MidStreamFailure)
    ensures
        r.track_id@ == track_id@,
        r.deck is None,
        r.kind is ThreadPanic,
        r.kind.text() == match payload {
            Some(s) => s@,
            None => OPAQUE_PANIC@,
        },
{
    MidStreamFailure {
        track_id,
        deck: None,
        kind: MidStreamFailureKind::ThreadPanic(panic_payload_to_string(payload)),
    }
}

/// Report a failure to the bridge. The thread never waits: where the channel
/// is full or closed, the report comes back, for a word in the log.
pub fn try_send_mid_stream_failure(
    tx: &mut Sender<MidStreamFailure>,
    failure: MidStreamFailure,
) -> (r: Offered<MidStreamFailure>)
    ensures
        r.gives_back(failure),
        channel::failure_offers(*final(tx)) == channel::failure_offers(*old(tx)).push(
            (failure, r.outcome_spec()),
        ),
{
    try_send_failure(tx, failure)
}

/// A path names a source in memory by what stands behind its prefix, a remote
/// file by its scheme, and else a local file.
pub proof fn paths_tell_their_origin(rest: Seq<char>, path: Seq<char>, r: MediaOrigin)
    requires
        origin_of(path, r),
    ensures
        path == "mem://"@ + rest ==> (r matches MediaOrigin::Inline(key) && key@ == rest),
        path == "http://"@ + rest ==> r is Http,
        path == "https://"@ + rest ==> r is Http,
        r is Inline <==> "mem://"@.is_prefix_of(path),
        r is Http <==> "http://"@.is_prefix_of(path) || "https://"@.is_prefix_of(path),
        r is File <==> !"mem://"@.is_prefix_of(path) && !"http://"@.is_prefix_of(path)
            && !"https://"@.is_prefix_of(path),
{
    reveal_strlit("mem://");
    reveal_strlit("http://");
    reveal_strlit("https://");
    if path == "mem://"@ + rest {
        assert("mem://"@.is_prefix_of(path));
        assert(path.skip(6) =~= rest);
    }
    if "mem://"@.is_prefix_of(path) {
        assert("mem://"@[0] == 'm' && path.subrange(0, 6)[0] == path[0]);
    }
    if "http://"@.is_prefix_of(path) {
        assert("http://"@[0] == 'h' && path.subrange(0, 7)[0] == path[0]);
    }
    if "https://"@.is_prefix_of(path) {
        assert("https://"@[0] == 'h' && path.subrange(0, 8)[0] == path[0]);
    }
    if path == "http://"@ + rest {
        assert("http://"@.is_prefix_of(path));
    }
    if path == "https://"@ + rest {
        assert("https://"@.is_prefix_of(path));
    }
}

/// A decoder thread goes round from reading to decoding to pushing, for the
/// packets of its track and no others, and passes damaged ones over; it ends
/// just at the end of the stream, when it is asked to, and at a failure.
pub proof fn decoder_threads_go_round(
    event: DecoderEvent,
    wanted: u32,
    label: Seq<char>,
    step: DecoderStep,
)
    requires
        follows(event, wanted, label, step),
    ensures
        step is DecodePacket <==> event == (DecoderEvent::PacketRead { track: wanted }),
        step is PushSamples <==> event is Decoded,
        step is Stop <==> event is ShutDown || event is StreamEnded,
        step is Fail <==> event is ReadFailed || event is DecodeFailed || event is ResampleFailed,
        step is ReadPacket <==> event is Pushed || event is PacketDamaged || (event is PacketRead
            && event->PacketRead_track != wanted),
{
}

/// A failure that ends a thread is reported for the thread's track, of the
/// kind that it was, and with the text that came with it.
pub proof fn thread_failures_tell_the_cause(
    event: DecoderEvent,
    wanted: u32,
    label: Seq<char>,
    f: MidStreamFailure,
)
    requires
        follows(event, wanted, label, DecoderStep::Fail(f)),
    ensures
        f.track_id@ == label,
        f.deck is None,
        f.kind is ResampleFailed <==> event is ResampleFailed,
        f.kind is DecodeFailed <==> event is ReadFailed || event is DecodeFailed,
        event matches DecoderEvent::ReadFailed(e) ==> f.kind->DecodeFailed_0@
            == "reader.next_packet failed: "@ + e@,
        event matches DecoderEvent::DecodeFailed(e) ==> f.kind->DecodeFailed_0@
            == "decoder.decode failed: "@ + e@,
        event matches DecoderEvent::ResampleFailed(e) ==> f.kind->ResampleFailed_0@
            == "rubato resample failed mid-stream: "@ + e@,
{
}

} // verus!
