//! The engine as the bridge sees it: state, event log and event channel.
use crossbeam::channel::Sender;
use vstd::prelude::*;

use super::error::{engine_offline_view, engine_sink_unwired_view, ErrorView, RpcError};
use super::json::{field_views, fields_are_found_by_name, push_field, Json, JsonView};
use super::rpc::BridgeNotice;
use crate::audio::clock::ClockSource;
use crate::channel::{self, try_send_event, Offered, SendOutcome};
use crate::f32_bits::{F32Bits, ZERO_BITS};
use crate::state::{DeckId, EngineState, Event, EventKind, EventSource};

verus! {

/// The view of a result without a value.
pub open spec fn sent_view(r: Result<(), RpcError>) -> Result<(), ErrorView> {
    match r {
        Ok(()) => Ok(()),
        Err(e) => Err(e@),
    }
}

/// What a client is told of an outcome.
pub open spec fn outcome_view(o: SendOutcome) -> Result<(), ErrorView> {
    match o {
        SendOutcome::Accepted => Ok(()),
        SendOutcome::Full => Err(engine_offline_view("event channel full"@)),
        SendOutcome::Disconnected => Err(
            engine_offline_view("event channel disconnected (control loop exited)"@),
        ),
    }
}

/// What to tell a client of an outcome.
pub fn send_result(o: SendOutcome) -> (r: Result<(), RpcError>)
    ensures
        sent_view(r) == outcome_view(o),
{
    match o {
        SendOutcome::Accepted => Ok(()),
        SendOutcome::Full => Err(RpcError::engine_offline("event channel full")),
        SendOutcome::Disconnected => Err(
            RpcError::engine_offline("event channel disconnected (control loop exited)"),
        ),
    }
}

/// Counters of the server.
#[derive(Debug, Clone, Copy, PartialEq, Eq, Structural)]
pub struct BridgeMetrics {
    pub audio_xrun_count: u64,
    pub ws_clients_connected: u64,
    pub ring_pending: u64,
}

impl Default for BridgeMetrics {
    /// Everything zero.
    fn default() -> (r: Self)
        ensures
            r == (BridgeMetrics {
                audio_xrun_count: 0,
                ws_clients_connected: 0,
                ring_pending: 0,
            }),
    {
        BridgeMetrics { audio_xrun_count: 0, ws_clients_connected: 0, ring_pending: 0 }
    }
}

impl BridgeMetrics {
    /// One more client; past the largest number the count starts over.
    pub open spec fn joined(self) -> BridgeMetrics {
        BridgeMetrics {
            ws_clients_connected: if self.ws_clients_connected == u64::MAX {
                0
            } else {
                (self.ws_clients_connected + 1) as u64
            },
            ..self
        }
    }

    /// One client less; the count stops at zero.
    pub open spec fn left(self) -> BridgeMetrics {
        BridgeMetrics {
            ws_clients_connected: if self.ws_clients_connected == 0 {
                0
            } else {
                (self.ws_clients_connected - 1) as u64
            },
            ..self
        }
    }

    /// Count a client that connected.
    pub fn client_connected(&mut self)
        ensures
            *final(self) == old(self).joined(),
    {
        self.ws_clients_connected = self.ws_clients_connected.wrapping_add(1);
    }

    /// Count a client that went.
    pub fn client_disconnected(&mut self)
        ensures
            *final(self) == old(self).left(),
    {
        if self.ws_clients_connected > 0 {
            self.ws_clients_connected = self.ws_clients_connected - 1;
        }
    }
}

/// A client that comes and goes leaves the counters as they were, unless
/// they had run out.
pub proof fn leaving_undoes_joining(m: BridgeMetrics)
    requires
        m.ws_clients_connected < u64::MAX,
    ensures
        m.joined().left() == m,
{
}

/// Measurements of the audio thread, taken when a notice is made.
#[derive(Debug, Clone, Copy)]
pub struct LiveReadings {
    /// Gain reduction of the master limiter, in decibels.
    pub master_limiter_gain_reduction_db: F32Bits,
    pub clock_source: ClockSource,
}

impl Default for LiveReadings {
    /// What is told without an audio thread: no gain reduction, the internal
    /// clock.
    fn default() -> (r: Self)
        ensures
            r.master_limiter_gain_reduction_db.bits == ZERO_BITS,
            r.clock_source == ClockSource::Internal,
    {
        LiveReadings {
            master_limiter_gain_reduction_db: F32Bits { bits: ZERO_BITS },
            clock_source: ClockSource::Internal,
        }
    }
}

/// The engine as the bridge drives it.
pub struct EngineHandle {
    state: EngineState,
    log: Vec<Event>,
    next_event_id: u64,
    metrics: BridgeMetrics,
    event_sink: Option<Sender<Event>>,
}

/// The events after an id.
pub open spec fn events_after(log: Seq<Event>, since: u64) -> Seq<Event> {
    log.filter(|e: Event| e.id > since)
}

/// Ids grow along the log.
pub open spec fn ids_grow(log: Seq<Event>) -> bool {
    forall|i: int, j: int|
        0 <= i < j < log.len() ==> (#[trigger] log[i]).id < (#[trigger] log[j]).id
}

/// In a log whose ids grow, the events after an id are its end.
proof fn events_after_are_a_suffix(log: Seq<Event>, since: u64, k: int)
    requires
        0 <= k <= log.len(),
        forall|i: int| 0 <= i < k ==> (#[trigger] log[i]).id <= since,
        forall|i: int| k <= i < log.len() ==> (#[trigger] log[i]).id > since,
    ensures
        events_after(log, since) == log.skip(k),
    decreases log.len(),
{
    reveal(Seq::filter);
    if log.len() > 0 {
        let front = log.drop_last();
        if k == log.len() {
            events_after_are_a_suffix(front, since, k - 1);
            assert(front.skip(k - 1) =~= log.skip(k));
        } else {
            events_after_are_a_suffix(front, since, k);
            assert(front.skip(k).push(log.last()) =~= log.skip(k));
        }
    } else {
        assert(log.skip(k) =~= Seq::<Event>::empty());
    }
}

/// Reading the log gives back what was submitted: a new event is the last
/// one after every earlier id, and the only one after the id before it.
pub proof fn log_reads_give_back_submissions(log: Seq<Event>, event: Event, since: u64)
    requires
        ids_grow(log),
        forall|i: int| 0 <= i < log.len() ==> (#[trigger] log[i]).id < event.id,
        since < event.id,
    ensures
        events_after(log.push(event), since) == events_after(log, since).push(event),
        since == event.id - 1 ==> events_after(log.push(event), since) == seq![event],
{
    reveal(Seq::filter);
    assert(log.push(event).drop_last() =~= log);
    if since == event.id - 1 {
        events_after_are_a_suffix(log, since, log.len() as int);
        assert(log.skip(log.len() as int) =~= Seq::<Event>::empty());
        assert(Seq::<Event>::empty().push(event) =~= seq![event]);
    }
}

/// What forwarding an event does to an engine: without a channel nothing, and
/// the client is told so; else the event is offered, and the client is told
/// what became of it.
pub open spec fn forwarded(
    before: EngineHandle,
    after: EngineHandle,
    event: Event,
    sent: Result<(), ErrorView>,
) -> bool {
    &&& after.wired() == before.wired()
    &&& if before.wired() {
        &&& after.offered().len() == before.offered().len() + 1
        &&& after.offered() == before.offered().push((event, after.offered().last().1))
        &&& sent == outcome_view(after.offered().last().1)
    } else {
        &&& after.offered() == before.offered()
        &&& sent == Err::<(), ErrorView>(
            engine_sink_unwired_view("EngineHandle constructed without an event sink"@),
        )
    }
}

impl EngineHandle {
    /// The current state.
    pub closed spec fn state(self) -> EngineState {
        self.state
    }

    /// The events applied so far.
    pub closed spec fn log(self) -> Seq<Event> {
        self.log@
    }

    /// The id that the next event gets.
    pub closed spec fn next_id(self) -> u64 {
        self.next_event_id
    }

    /// The server's counters.
    pub closed spec fn counters(self) -> BridgeMetrics {
        self.metrics
    }

    /// Whether there is an event channel.
    pub closed spec fn wired(self) -> bool {
        self.event_sink is Some
    }

    /// What was offered to the event channel so far, and what became of it;
    /// nothing where there is none.
    pub closed spec fn offered(self) -> Seq<(Event, SendOutcome)> {
        match self.event_sink {
            Some(sink) => channel::event_offers(sink),
            None => Seq::empty(),
        }
    }

    /// Ids count the log: the first event has id 1, and the next one gets
    /// the number behind the last.
    pub open spec fn valid(self) -> bool {
        &&& self.next_id() == self.log().len() + 1
        &&& forall|i: int| 0 <= i < self.log().len() ==> (#[trigger] self.log()[i]).id == i + 1
    }

    fn build(event_sink: Option<Sender<Event>>) -> (r: Self)
        ensures
            r.valid(),
            r.state().initial(),
            r.log() == Seq::<Event>::empty(),
            r.next_id() == 1,
            r.counters() == (BridgeMetrics {
                audio_xrun_count: 0,
                ws_clients_connected: 0,
                ring_pending: 0,
            }),
            r.wired() == (event_sink is Some),
            r.offered() == (match event_sink {
                Some(sink) => channel::event_offers(sink),
                None => Seq::empty(),
            }),
    {
        EngineHandle {
            state: EngineState::default(),
            log: Vec::new(),
            next_event_id: 1,
            metrics: BridgeMetrics::default(),
            event_sink,
        }
    }

    /// An engine without an event channel.
    pub fn new() -> (r: Self)
        ensures
            r.valid(),
            r.state().initial(),
            r.log() == Seq::<Event>::empty(),
            r.next_id() == 1,
            r.counters() == (BridgeMetrics {
                audio_xrun_count: 0,
                ws_clients_connected: 0,
                ring_pending: 0,
            }),
            !r.wired(),
            r.offered() == Seq::<(Event, SendOutcome)>::empty(),
    {
        EngineHandle::build(None)
    }

    /// An engine whose events go onto that channel.
    pub fn with_event_sink(sink: Sender<Event>) -> (r: Self)
        ensures
            r.valid(),
            r.state().initial(),
            r.log() == Seq::<Event>::empty(),
            r.next_id() == 1,
            r.counters() == (BridgeMetrics {
                audio_xrun_count: 0,
                ws_clients_connected: 0,
                ring_pending: 0,
            }),
            r.wired(),
            r.offered() == channel::event_offers(sink),
    {
        EngineHandle::build(Some(sink))
    }

    /// Whether there is an event channel.
    pub fn has_event_sink(&self) -> (r: bool)
        ensures
            r == self.wired(),
    {
        self.event_sink.is_some()
    }

    /// Offer an event to the control loop without waiting. Where there is a
    /// channel the event is offered to it once, and the result tells what
    /// became of it.
    pub fn forward_event(&mut self, event: Event) -> (r: Result<(), RpcError>)
        ensures
            forwarded(*old(self), *final(self), event, sent_view(r)),
            final(self).state() == old(self).state(),
            final(self).log() == old(self).log(),
            final(self).next_id() == old(self).next_id(),
            final(self).counters() == old(self).counters(),
    {
        let ghost before = self.offered();
        match &mut self.event_sink {
            None => Err(
                RpcError::engine_sink_unwired("EngineHandle constructed without an event sink"),
            ),
            Some(sink) => {
                let offered: Offered<Event> = try_send_event(sink, event);
                assert(self.offered() == before.push((event, offered.outcome_spec())));
                send_result(offered.outcome())
            },
        }
    }

    /// The server's counters.
    pub fn metrics(&self) -> (r: &BridgeMetrics)
        ensures
            *r == self.counters(),
    {
        &self.metrics
    }

    /// Replace the server's counters.
    pub fn set_metrics(&mut self, metrics: BridgeMetrics)
        ensures
            final(self).counters() == metrics,
            final(self).state() == old(self).state(),
            final(self).log() == old(self).log(),
            final(self).next_id() == old(self).next_id(),
            final(self).wired() == old(self).wired(),
            final(self).offered() == old(self).offered(),
    {
        self.metrics = metrics;
    }

    /// The notice of an audio problem.
    pub fn publish_audio_alert(&self, kind: &str, details: &str) -> (r: BridgeNotice)
        ensures
            r matches BridgeNotice::AudioAlert { kind: k, details: d } && k@ == kind@ && d@
                == details@,
    {
        BridgeNotice::AudioAlert { kind: kind.to_owned(), details: details.to_owned() }
    }

    /// The notice of a track that could not be decoded.
    pub fn publish_decode_error(
        &self,
        deck: DeckId,
        track_id: &str,
        category: &str,
        error: &str,
    ) -> (r: BridgeNotice)
        ensures
            r matches BridgeNotice::DecodeError { deck: d, track_id: t, category: c, error: e }
                && d == deck && t@ == track_id@ && c@ == category@ && e@ == error@,
    {
        BridgeNotice::DecodeError {
            deck,
            track_id: track_id.to_owned(),
            category: category.to_owned(),
            error: error.to_owned(),
        }
    }

    /// The current state.
    pub fn snapshot(&self) -> (r: EngineState)
        ensures
            r == self.state(),
    {
        self.state
    }

    /// The id given out last, which is the length of the log; 0 before the
    /// first.
    pub fn last_event_id(&self) -> (r: u64)
        requires
            self.valid(),
        ensures
            r == self.log().len(),
            r == self.next_id() - 1,
    {
        self.next_event_id - 1
    }

    /// The id that the next event gets.
    pub fn next_event_id(&self) -> (r: u64)
        ensures
            r == self.next_id(),
    {
        self.next_event_id
    }

    /// Whether there are ids left.
    pub fn has_ids_left(&self) -> (r: bool)
        ensures
            r == (self.next_id() < u64::MAX),
    {
        self.next_event_id < u64::MAX
    }

    /// The logged events after an id, at most `limit` of them.
    pub fn event_log(&self, since: u64, limit: u32) -> (r: &[Event])
        requires
            self.valid(),
        ensures
            r@ == (if events_after(self.log(), since).len() < limit {
                events_after(self.log(), since)
            } else {
                events_after(self.log(), since).take(limit as int)
            }),
    {
        let n: usize = self.log.len();
        let mut k: usize = 0;
        while k < n && self.log[k].id <= since
            invariant
                k <= n,
                n == self.log@.len(),
                forall|i: int| 0 <= i < k ==> (#[trigger] self.log@[i]).id <= since,
            decreases n - k,
        {
            k += 1;
        }
        proof {
            assert forall|i: int| k <= i < n implies (#[trigger] self.log@[i]).id > since by {
                assert(self.log()[k as int].id == k + 1 && self.log()[i].id == i + 1);
            }
            events_after_are_a_suffix(self.log@, since, k as int);
        }
        let rest: usize = n - k;
        let cap: usize = limit as usize;
        let end: usize = if rest < cap {
            n
        } else {
            k + cap
        };
        let r: &[Event] = vstd::slice::slice_subrange(self.log.as_slice(), k, end);
        proof {
            if rest < cap {
                assert(r@ =~= self.log@.skip(k as int));
            } else {
                assert(r@ =~= self.log@.skip(k as int).take(limit as int));
            }
        }
        r
    }

    /// Uptime and counters, as JSON.
    pub fn health(&self, uptime_ms: u64) -> (r: Json)
        ensures
            r@ == health_view(uptime_ms, self.counters()),
    {
        let m: BridgeMetrics = self.metrics;
        let mut fields: Vec<(String, Json)> = Vec::new();
        push_field(&mut fields, "uptime_ms", Json::UInt(uptime_ms));
        push_field(&mut fields, "audio_xrun_count", Json::UInt(m.audio_xrun_count));
        push_field(&mut fields, "ws_clients_connected", Json::UInt(m.ws_clients_connected));
        push_field(&mut fields, "ring_pending", Json::UInt(m.ring_pending));
        proof {
            assert(field_views(fields@) =~= health_view(uptime_ms, m)->Object_0);
        }
        Json::object(fields)
    }

    /// Put an event that carries the next id at the end of the log.
    pub fn log_event(&mut self, event: Event)
        requires
            old(self).valid(),
            old(self).next_id() < u64::MAX,
            event.id == old(self).next_id(),
        ensures
            final(self).next_id() == old(self).next_id() + 1,
            final(self).state() == old(self).state(),
            final(self).log() == old(self).log().push(event),
            final(self).counters() == old(self).counters(),
            final(self).wired() == old(self).wired(),
            final(self).offered() == old(self).offered(),
            final(self).valid(),
    {
        self.next_event_id = self.next_event_id + 1;
        self.log.push(event);
    }

    /// Apply an event: it gets the next id and goes to the end of the log,
    /// and `next_state`, the state that it leads to, becomes the current
    /// one. Returns its id and the notice for the clients.
    pub fn submit_event_kind(
        &mut self,
        kind: EventKind,
        source: EventSource,
        ts_micros: i64,
        next_state: EngineState,
        live: LiveReadings,
    ) -> (r: (u64, BridgeNotice))
        requires
            old(self).valid(),
            old(self).next_id() < u64::MAX,
        ensures
            r.0 == old(self).next_id(),
            r.1 == (BridgeNotice::StateChanged {
                state: Box::new(next_state),
                last_event_id: r.0,
                master_limiter_gain_reduction_db: live.master_limiter_gain_reduction_db,
                clock_source: live.clock_source,
            }),
            final(self).next_id() == old(self).next_id() + 1,
            final(self).state() == next_state,
            final(self).log() == old(self).log().push(
                Event { id: r.0, ts_micros, source, kind },
            ),
            final(self).counters() == old(self).counters(),
            final(self).wired() == old(self).wired(),
            final(self).offered() == old(self).offered(),
            final(self).valid(),
    {
        let id: u64 = self.next_event_id;
        self.log_event(Event { id, ts_micros, source, kind });
        self.state = next_state;
        (
            id,
            BridgeNotice::StateChanged {
                state: Box::new(next_state),
                last_event_id: id,
                master_limiter_gain_reduction_db: live.master_limiter_gain_reduction_db,
                clock_source: live.clock_source,
            },
        )
    }
}

impl Default for EngineHandle {
    /// An engine without an event channel.
    fn default() -> (r: Self)
        ensures
            r.valid(),
            r.state().initial(),
            r.log() == Seq::<Event>::empty(),
            r.next_id() == 1,
            !r.wired(),
    {
        EngineHandle::new()
    }
}

/// Uptime and counters, as JSON.
pub open spec fn health_view(uptime_ms: u64, m: BridgeMetrics) -> JsonView {
    JsonView::Object(
        seq![
            ("uptime_ms"@, JsonView::UInt(uptime_ms)),
            ("audio_xrun_count"@, JsonView::UInt(m.audio_xrun_count)),
            ("ws_clients_connected"@, JsonView::UInt(m.ws_clients_connected)),
            ("ring_pending"@, JsonView::UInt(m.ring_pending)),
        ],
    )
}

/// A client is told that its event was taken just where it was; else it is
/// told that the engine is offline.
pub proof fn outcomes_are_told_as_they_are(o: SendOutcome, e: RpcError)
    ensures
        outcome_view(o) is Ok <==> o == SendOutcome::Accepted,
        o != SendOutcome::Accepted ==> (outcome_view(o) matches Err(e) && e.code == -32000),
        outcome_view(SendOutcome::Full) != outcome_view(SendOutcome::Disconnected),
        sent_view(Ok(())) is Ok,
        sent_view(Err(e)) == Err::<(), ErrorView>(e@),
{
    reveal_strlit("event channel full");
    reveal_strlit("event channel disconnected (control loop exited)");
    let a = outcome_view(SendOutcome::Full)->Err_0.data->0->Text_0;
    let b = outcome_view(SendOutcome::Disconnected)->Err_0.data->0->Text_0;
    assert(a.len() != b.len());
}

/// Clients are counted one by one, and nothing else is.
pub proof fn clients_are_counted(m: BridgeMetrics)
    ensures
        m.ws_clients_connected < u64::MAX ==> m.joined().ws_clients_connected
            == m.ws_clients_connected + 1,
        m.ws_clients_connected > 0 ==> m.left().ws_clients_connected == m.ws_clients_connected - 1,
        m.ws_clients_connected == 0 ==> m.left() == m,
        m.joined().audio_xrun_count == m.audio_xrun_count,
        m.joined().ring_pending == m.ring_pending,
        m.left().audio_xrun_count == m.audio_xrun_count,
        m.left().ring_pending == m.ring_pending,
{
}

/// An event is offered to the control loop once, where there is one to offer
/// it to, and the client is told what became of it; without one nothing is
/// offered, and the client is told that.
pub proof fn events_are_offered_once(
    before: EngineHandle,
    after: EngineHandle,
    event: Event,
    sent: Result<(), ErrorView>,
)
    requires
        forwarded(before, after, event, sent),
    ensures
        after.wired() == before.wired(),
        before.wired() ==> {
            &&& after.offered().len() == before.offered().len() + 1
            &&& before.offered().is_prefix_of(after.offered())
            &&& after.offered().last().0 == event
            &&& sent is Ok <==> after.offered().last().1 == SendOutcome::Accepted
        },
        !before.wired() ==> {
            &&& after.offered() == before.offered()
            &&& sent matches Err(e)
            &&& e.code == -32001
            &&& e.data == Some(JsonView::Text("EngineHandle constructed without an event sink"@))
        },
{
}

/// Reading the log from an id on gives each event behind it, and none at or
/// before it.
pub proof fn log_reads_start_behind_the_id(log: Seq<Event>, event: Event, since: u64, i: int)
    ensures
        since >= event.id ==> events_after(log.push(event), since) == events_after(log, since),
        since < event.id ==> events_after(log.push(event), since) == events_after(log, since).push(
            event,
        ),
        events_after(Seq::empty(), since) == Seq::<Event>::empty(),
        0 <= i < events_after(log, since).len() ==> events_after(log, since)[i].id > since,
    decreases log.len(),
{
    reveal(Seq::filter);
    assert(log.push(event).drop_last() =~= log);
    if log.len() > 0 {
        let first = log.drop_last();
        log_reads_start_behind_the_id(first, log.last(), since, i);
    }
}

/// An engine's events are numbered from one on, in the order of its log.
pub proof fn events_are_numbered(engine: EngineHandle, i: int)
    requires
        engine.valid(),
        0 <= i < engine.log().len(),
    ensures
        engine.log()[i].id == i + 1,
        engine.next_id() == engine.log().len() + 1,
        ids_grow(engine.log()),
{
}

/// Ids that grow are larger behind than before.
pub proof fn growing_ids_are_distinct(log: Seq<Event>, i: int, j: int)
    requires
        ids_grow(log),
        0 <= i < log.len(),
        0 <= j < log.len(),
    ensures
        i < j <==> log[i].id < log[j].id,
{
}

/// The health of the server shows the uptime and each counter under its own
/// name.
pub proof fn health_shows_the_counters(uptime_ms: u64, m: BridgeMetrics)
    ensures
        health_view(uptime_ms, m).field("uptime_ms"@) == Some(JsonView::UInt(uptime_ms)),
        health_view(uptime_ms, m).field("audio_xrun_count"@) == Some(
            JsonView::UInt(m.audio_xrun_count),
        ),
        health_view(uptime_ms, m).field("ws_clients_connected"@) == Some(
            JsonView::UInt(m.ws_clients_connected),
        ),
        health_view(uptime_ms, m).field("ring_pending"@) == Some(JsonView::UInt(m.ring_pending)),
{
    reveal_strlit("uptime_ms");
    reveal_strlit("audio_xrun_count");
    reveal_strlit("ws_clients_connected");
    reveal_strlit("ring_pending");
    assert("uptime_ms"@.len() == 9 && "audio_xrun_count"@.len() == 16);
    assert("ws_clients_connected"@.len() == 20 && "ring_pending"@.len() == 12);
    let fields = health_view(uptime_ms, m)->Object_0;
    fields_are_found_by_name(fields, 0, "uptime_ms"@);
    fields_are_found_by_name(fields, 1, "uptime_ms"@);
    fields_are_found_by_name(fields, 2, "uptime_ms"@);
    fields_are_found_by_name(fields, 3, "uptime_ms"@);
}

} // verus!
