//! From a request to its answer.
//!
//! [`dispatch`] and its siblings decide what a request asks for. Where that
//! needs parameters parsed, a file read or a remote call, they return the
//! step to take, and one of the `finish_` functions turns what came of it
//! into the answer.
use vstd::prelude::*;

use super::auth::{bearer_header, header_accepted, only_the_token_is_accepted, AuthConfig};
use super::engine::{
    events_are_offered_once, forwarded, health_view, sent_view, EngineHandle,
};
use super::error::{
    auth_rejected_view, internal_view, invalid_params_view, invalid_request_view,
    method_not_found_view, ErrorView, RpcError,
};
use super::json::{
    field_views, fields_are_found_by_name, item_views, push_field, Json, JsonView,
};
use super::method;
use super::rpc::{
    err_view, id_view, json_view, ok_view, AuthState, IdView, RequestView, ResponseView, RpcId, RpcRequest,
    RpcResponse,
};
use crate::audio::effects::{
    descriptors, registry, views, EffectId, ParamDescriptor, ParamView, EFFECT_ECHO, EFFECT_FILTER,
    EFFECT_GATE, EFFECT_REVERB,
};
use crate::channel::SendOutcome;
use crate::state::{copies_tell_the_same, same_event, Event, EventKind, EventSource};
use crate::text::{has_prefix, is_white, same_text};

verus! {

/// Methods with this beginning are answered by the copilot service.
pub const LIBRARY_PREFIX: &'static str = "library.";

/// Complaint about a request that is not valid.
pub const BAD_ENVELOPE: &'static str = "jsonrpc must be \"2.0\" and method non-empty";

/// Complaint about missing parameters.
pub const MISSING_PARAMS: &'static str = "missing params";

/// What a request asks for.
#[derive(Debug)]
pub enum Dispatch {
    /// Nothing more; this is the answer.
    Reply(RpcResponse),
    /// Check the token in `params`.
    Hello { id: Option<RpcId>, params: Json },
    /// Submit the event in `params`.
    SubmitEvent { id: Option<RpcId>, params: Json },
    /// Send the state.
    Snapshot { id: Option<RpcId> },
    /// Send the part of the log that `query` names.
    EventLog { id: Option<RpcId>, query: Option<Json> },
    /// Send uptime and counters.
    Health { id: Option<RpcId> },
    /// List the past sessions.
    ListSessions { id: Option<RpcId> },
    /// Replay the session in `params`.
    ReplaySession { id: Option<RpcId>, params: Json },
    /// Ask the copilot service.
    Library { id: Option<RpcId>, method: String, params: Json },
}

/// What a dispatch says.
pub enum DispatchView {
    Reply(ResponseView),
    Hello { id: Option<IdView>, params: JsonView },
    SubmitEvent { id: Option<IdView>, params: JsonView },
    Snapshot { id: Option<IdView> },
    EventLog { id: Option<IdView>, query: Option<JsonView> },
    Health { id: Option<IdView> },
    ListSessions { id: Option<IdView> },
    ReplaySession { id: Option<IdView>, params: JsonView },
    Library { id: Option<IdView>, method: Seq<char>, params: JsonView },
}

impl View for Dispatch {
    type V = DispatchView;

    open spec fn view(&self) -> DispatchView {
        match self {
            Dispatch::Reply(r) => DispatchView::Reply(r@),
            Dispatch::Hello { id, params } => DispatchView::Hello {
                id: id_view(*id),
                params: params@,
            },
            Dispatch::SubmitEvent { id, params } => DispatchView::SubmitEvent {
                id: id_view(*id),
                params: params@,
            },
            Dispatch::Snapshot { id } => DispatchView::Snapshot { id: id_view(*id) },
            Dispatch::EventLog { id, query } => DispatchView::EventLog {
                id: id_view(*id),
                query: json_view(*query),
            },
            Dispatch::Health { id } => DispatchView::Health { id: id_view(*id) },
            Dispatch::ListSessions { id } => DispatchView::ListSessions { id: id_view(*id) },
            Dispatch::ReplaySession { id, params } => DispatchView::ReplaySession {
                id: id_view(*id),
                params: params@,
            },
            Dispatch::Library { id, method, params } => DispatchView::Library {
                id: id_view(*id),
                method: method@,
                params: params@,
            },
        }
    }
}

impl DispatchView {
    /// The id that the answer will carry.
    pub open spec fn id(self) -> Option<IdView> {
        match self {
            DispatchView::Reply(r) => r.id,
            DispatchView::Hello { id, .. } => id,
            DispatchView::SubmitEvent { id, .. } => id,
            DispatchView::Snapshot { id } => id,
            DispatchView::EventLog { id, .. } => id,
            DispatchView::Health { id } => id,
            DispatchView::ListSessions { id } => id,
            DispatchView::ReplaySession { id, .. } => id,
            DispatchView::Library { id, .. } => id,
        }
    }
}

/// Answer with an error at once.
pub open spec fn refusal(id: Option<IdView>, e: ErrorView) -> DispatchView {
    DispatchView::Reply(err_view(id, e))
}

/// What a request asks of the engine.
pub open spec fn engine_route(req: RequestView) -> DispatchView {
    let id = req.id;
    if !req.valid() {
        refusal(id, invalid_request_view(BAD_ENVELOPE@))
    } else if req.method == method::SUBMIT_EVENT@ {
        match req.params {
            Some(params) => DispatchView::SubmitEvent { id, params },
            None => refusal(id, invalid_params_view(MISSING_PARAMS@)),
        }
    } else if req.method == method::SNAPSHOT@ {
        DispatchView::Snapshot { id }
    } else if req.method == method::EVENT_LOG@ {
        DispatchView::EventLog { id, query: req.params }
    } else if req.method == method::HEALTH@ {
        DispatchView::Health { id }
    } else if req.method == method::LIST_EFFECTS@ {
        DispatchView::Reply(ok_view(id, effects_view()))
    } else if req.method == method::LIST_SESSIONS@ {
        DispatchView::ListSessions { id }
    } else if req.method == method::REPLAY_SESSION@ {
        match req.params {
            Some(params) => DispatchView::ReplaySession { id, params },
            None => refusal(id, invalid_params_view(MISSING_PARAMS@)),
        }
    } else {
        refusal(id, method_not_found_view(req.method))
    }
}

/// What a request asks for on a connection: until it has shown its token,
/// nothing but a token is looked at.
pub open spec fn gated_route(state: AuthState, req: RequestView) -> DispatchView {
    let id = req.id;
    if !req.valid() {
        refusal(id, invalid_request_view(BAD_ENVELOPE@))
    } else if req.method == method::AUTH_HELLO@ {
        match req.params {
            Some(params) => DispatchView::Hello { id, params },
            None => refusal(id, invalid_params_view(MISSING_PARAMS@)),
        }
    } else if state == AuthState::PendingAuth {
        refusal(id, auth_rejected_view("authentication required"@))
    } else {
        engine_route(req)
    }
}

/// What a request asks for on a connection, where methods of the library go
/// to the copilot service.
pub open spec fn routed(state: AuthState, req: RequestView) -> DispatchView {
    if req.valid() && req.method != method::AUTH_HELLO@ && state == AuthState::Authed
        && LIBRARY_PREFIX@.is_prefix_of(req.method) {
        DispatchView::Library {
            id: req.id,
            method: req.method,
            params: match req.params {
                Some(p) => p,
                None => JsonView::Null,
            },
        }
    } else {
        gated_route(state, req)
    }
}

/// One parameter of an effect, as JSON.
pub open spec fn param_view(p: ParamView) -> JsonView {
    JsonView::Object(
        seq![
            ("name"@, JsonView::Text(p.name)),
            ("min"@, JsonView::Real(p.min)),
            ("max"@, JsonView::Real(p.max)),
            ("default"@, JsonView::Real(p.default)),
        ],
    )
}

/// One effect, as JSON.
pub open spec fn effect_view(id: EffectId, name: Seq<char>) -> JsonView {
    JsonView::Object(
        seq![
            ("id"@, JsonView::UInt(id as u64)),
            ("name"@, JsonView::Text(name)),
            (
                "params"@,
                JsonView::List(
                    Seq::new(registry(id).len(), |i: int| param_view(registry(id)[i])),
                ),
            ),
        ],
    )
}

/// All effects, as JSON.
pub open spec fn effects_view() -> JsonView {
    JsonView::Object(
        seq![
            (
                "effects"@,
                JsonView::List(
                    seq![
                        effect_view(EFFECT_FILTER, "filter"@),
                        effect_view(EFFECT_ECHO, "echo"@),
                        effect_view(EFFECT_REVERB, "reverb"@),
                        effect_view(EFFECT_GATE, "gate"@),
                    ],
                ),
            ),
        ],
    )
}

/// One parameter of an effect, as JSON.
pub fn param_descriptor_to_json(d: &ParamDescriptor) -> (r: Json)
    ensures
        r@ == param_view(d@),
{
    let mut fields: Vec<(String, Json)> = Vec::new();
    push_field(&mut fields, "name", Json::text(d.name));
    push_field(&mut fields, "min", Json::Real(d.min.bits));
    push_field(&mut fields, "max", Json::Real(d.max.bits));
    push_field(&mut fields, "default", Json::Real(d.default.bits));
    proof {
        assert(field_views(fields@) =~= param_view(d@)->Object_0);
    }
    Json::object(fields)
}

fn effect_to_json(id: EffectId, name: &str) -> (r: Json)
    ensures
        r@ == effect_view(id, name@),
{
    let rows: Vec<ParamDescriptor> = descriptors(id);
    let mut params: Vec<Json> = Vec::new();
    let mut i: usize = 0;
    while i < rows.len()
        invariant
            i <= rows@.len(),
            views(rows@) == registry(id),
            item_views(params@) == Seq::new(i as nat, |j: int| param_view(registry(id)[j])),
        decreases rows@.len() - i,
    {
        let p: Json = param_descriptor_to_json(&rows[i]);
        let ghost before = params@;
        params.push(p);
        proof {
            assert(registry(id)[i as int] == rows@[i as int]@);
            assert(item_views(params@) =~= item_views(before).push(p@));
            assert(item_views(params@) =~= Seq::new(
                (i + 1) as nat,
                |j: int| param_view(registry(id)[j]),
            ));
        }
        i += 1;
    }
    proof {
        assert(registry(id).len() == rows@.len());
    }
    let id64: u64 = id as u64;
    let mut fields: Vec<(String, Json)> = Vec::new();
    push_field(&mut fields, "id", Json::UInt(id64));
    push_field(&mut fields, "name", Json::text(name));
    push_field(&mut fields, "params", Json::list(params));
    proof {
        assert(field_views(fields@) =~= effect_view(id, name@)->Object_0);
    }
    Json::object(fields)
}

/// All effects and their parameters, as JSON.
pub fn list_effects_result() -> (r: Json)
    ensures
        r@ == effects_view(),
{
    let mut effects: Vec<Json> = Vec::new();
    effects.push(effect_to_json(EFFECT_FILTER, "filter"));
    effects.push(effect_to_json(EFFECT_ECHO, "echo"));
    effects.push(effect_to_json(EFFECT_REVERB, "reverb"));
    effects.push(effect_to_json(EFFECT_GATE, "gate"));
    proof {
        assert(item_views(effects@) =~= effects_view()->Object_0[0].1->List_0);
    }
    let mut fields: Vec<(String, Json)> = Vec::new();
    push_field(&mut fields, "effects", Json::list(effects));
    proof {
        assert(field_views(fields@) =~= effects_view()->Object_0);
    }
    Json::object(fields)
}

/// What a request asks of the engine. Whether the client has shown a token
/// is not looked at.
pub fn dispatch(req: RpcRequest) -> (r: Dispatch)
    ensures
        r@ == engine_route(req@),
{
    if !req.is_valid() {
        return Dispatch::Reply(RpcResponse::err(req.id, RpcError::invalid_request(BAD_ENVELOPE)));
    }
    let id: Option<RpcId> = req.id;
    let name: &str = req.method.as_str();
    if same_text(name, method::SUBMIT_EVENT) {
        match req.params {
            Some(params) => Dispatch::SubmitEvent { id, params },
            None => Dispatch::Reply(RpcResponse::err(id, RpcError::invalid_params(MISSING_PARAMS))),
        }
    } else if same_text(name, method::SNAPSHOT) {
        Dispatch::Snapshot { id }
    } else if same_text(name, method::EVENT_LOG) {
        Dispatch::EventLog { id, query: req.params }
    } else if same_text(name, method::HEALTH) {
        Dispatch::Health { id }
    } else if same_text(name, method::LIST_EFFECTS) {
        Dispatch::Reply(RpcResponse::ok(id, list_effects_result()))
    } else if same_text(name, method::LIST_SESSIONS) {
        Dispatch::ListSessions { id }
    } else if same_text(name, method::REPLAY_SESSION) {
        match req.params {
            Some(params) => Dispatch::ReplaySession { id, params },
            None => Dispatch::Reply(RpcResponse::err(id, RpcError::invalid_params(MISSING_PARAMS))),
        }
    } else {
        Dispatch::Reply(RpcResponse::err(id, RpcError::method_not_found(name)))
    }
}

/// What a request asks for on a connection in that state.
pub fn dispatch_with_auth(state: AuthState, req: RpcRequest) -> (r: Dispatch)
    ensures
        r@ == gated_route(state, req@),
{
    if !req.is_valid() {
        return Dispatch::Reply(RpcResponse::err(req.id, RpcError::invalid_request(BAD_ENVELOPE)));
    }
    if same_text(req.method.as_str(), method::AUTH_HELLO) {
        return match req.params {
            Some(params) => Dispatch::Hello { id: req.id, params },
            None => Dispatch::Reply(
                RpcResponse::err(req.id, RpcError::invalid_params(MISSING_PARAMS)),
            ),
        };
    }
    if state == AuthState::PendingAuth {
        return Dispatch::Reply(
            RpcResponse::err(req.id, RpcError::auth_rejected("authentication required")),
        );
    }
    dispatch(req)
}

/// What a request asks for on a connection in that state, where methods of
/// the library go to the copilot service. Authentication comes first.
pub fn dispatch_with_auth_async(state: AuthState, req: RpcRequest) -> (r: Dispatch)
    ensures
        r@ == routed(state, req@),
{
    if req.is_valid() && state == AuthState::Authed && has_prefix(
        req.method.as_str(),
        LIBRARY_PREFIX,
    ) && !same_text(req.method.as_str(), method::AUTH_HELLO) {
        let params: Json = match req.params {
            Some(p) => p,
            None => Json::Null,
        };
        return Dispatch::Library { id: req.id, method: req.method, params };
    }
    dispatch_with_auth(state, req)
}

/// The view of a text, or of the complaint about it.
pub open spec fn text_view(r: Result<String, String>) -> Result<Seq<char>, Seq<char>> {
    match r {
        Ok(t) => Ok(t@),
        Err(e) => Err(e@),
    }
}

/// What a client gets for the right token.
pub open spec fn hello_view(session: u64) -> JsonView {
    JsonView::Object(
        seq![("authed"@, JsonView::Bool(true)), ("session"@, JsonView::UInt(session))],
    )
}

/// Answer to `auth.hello`, and the state of the connection from then on.
pub open spec fn hello_outcome(
    configured: Option<Seq<char>>,
    state: AuthState,
    id: Option<IdView>,
    token: Result<Seq<char>, Seq<char>>,
    session: u64,
) -> (ResponseView, AuthState) {
    match token {
        Err(e) => (err_view(id, invalid_params_view(e)), state),
        Ok(t) => if header_accepted(configured, Some(bearer_header(t))) {
            (ok_view(id, hello_view(session)), AuthState::Authed)
        } else {
            (err_view(id, auth_rejected_view("invalid token"@)), state)
        },
    }
}

/// What a client gets for the right token; `session` is a time stamp by
/// which it can find the connection in the logs.
pub fn auth_hello_success_result(session: u64) -> (r: Json)
    ensures
        r@ == hello_view(session),
{
    let mut fields: Vec<(String, Json)> = Vec::new();
    push_field(&mut fields, "authed", Json::Bool(true));
    push_field(&mut fields, "session", Json::UInt(session));
    proof {
        assert(field_views(fields@) =~= hello_view(session)->Object_0);
    }
    Json::object(fields)
}

/// Answer `auth.hello`: `token` is what its parameters hold, or why they
/// could not be read. A connection that has shown its token may do so again,
/// and stays as it is where it then shows a wrong one.
pub fn dispatch_auth_hello(
    auth: &AuthConfig,
    state: AuthState,
    id: Option<RpcId>,
    token: Result<String, String>,
    session: u64,
) -> (r: (RpcResponse, AuthState))
    ensures
        (r.0@, r.1) == hello_outcome(auth.token(), state, id_view(id), text_view(token), session),
{
    match token {
        Err(e) => (RpcResponse::err(id, RpcError::invalid_params(e.as_str())), state),
        Ok(t) => {
            let header: String = "Bearer ".to_owned().concat(t.as_str());
            if auth.check_header(Some(header.as_str())) {
                (RpcResponse::ok(id, auth_hello_success_result(session)), AuthState::Authed)
            } else {
                (RpcResponse::err(id, RpcError::auth_rejected("invalid token")), state)
            }
        },
    }
}

/// Parameters of `engine.submit_event`: an event, or an event and who caused
/// it.
#[derive(Debug)]
pub enum SubmitEventParams {
    Wrapped { kind: EventKind, source: Option<EventSource> },
    Bare(EventKind),
}

impl SubmitEventParams {
    /// The event and who caused it; the user interface where that is not
    /// said.
    pub open spec fn parts(self) -> (EventKind, EventSource) {
        match self {
            SubmitEventParams::Wrapped { kind, source: Some(s) } => (kind, s),
            SubmitEventParams::Wrapped { kind, source: None } => (kind, EventSource::Ui),
            SubmitEventParams::Bare(kind) => (kind, EventSource::Ui),
        }
    }

    /// The event and who caused it.
    pub fn into_parts(self) -> (r: (EventKind, EventSource))
        ensures
            r == self.parts(),
    {
        match self {
            SubmitEventParams::Wrapped { kind, source: Some(s) } => (kind, s),
            SubmitEventParams::Wrapped { kind, source: None } => (kind, EventSource::Ui),
            SubmitEventParams::Bare(kind) => (kind, EventSource::Ui),
        }
    }
}

/// The event that a submission stands for, with the next id.
pub open spec fn submitted(next_id: u64, params: SubmitEventParams, ts_micros: i64) -> Event {
    Event { id: next_id, ts_micros, source: params.parts().1, kind: params.parts().0 }
}

/// The event that a submission stands for, with the next id.
pub fn submitted_event(engine: &EngineHandle, params: SubmitEventParams, ts_micros: i64) -> (r:
    Event)
    ensures
        r == submitted(engine.next_id(), params, ts_micros),
{
    let (kind, source) = params.into_parts();
    Event { id: engine.next_event_id(), ts_micros, source, kind }
}

/// Answer to a submission, by what became of the event.
pub open spec fn submission_view(id: Option<IdView>, sent: Result<(), ErrorView>) -> ResponseView {
    match sent {
        Ok(()) => ok_view(id, JsonView::Object(seq![("accepted"@, JsonView::Bool(true))])),
        Err(e) => err_view(id, e),
    }
}

/// Answer a submission, by what became of the event.
pub fn submission_answer(id: Option<RpcId>, sent: Result<(), RpcError>) -> (r: RpcResponse)
    ensures
        r@ == submission_view(id_view(id), sent_view(sent)),
{
    match sent {
        Ok(()) => {
            let mut fields: Vec<(String, Json)> = Vec::new();
            push_field(&mut fields, "accepted", Json::Bool(true));
            proof {
                assert(field_views(fields@) =~= seq![("accepted"@, JsonView::Bool(true))]);
            }
            RpcResponse::ok(id, Json::object(fields))
        },
        Err(e) => RpcResponse::err(id, e),
    }
}

/// What a submission does to an engine: the event is offered to the control
/// loop, and one that is taken goes to the end of the log and uses up its id.
/// The state changes only when the control loop applies the event.
pub open spec fn submission(
    before: EngineHandle,
    after: EngineHandle,
    event: Event,
    sent: Result<(), ErrorView>,
) -> bool {
    &&& forwarded(before, after, event, sent)
    &&& after.state() == before.state()
    &&& after.counters() == before.counters()
    &&& if sent is Ok {
        &&& after.next_id() == before.next_id() + 1
        &&& after.log().len() == before.log().len() + 1
        &&& after.log().drop_last() == before.log()
        &&& same_event(event, after.log().last())
    } else {
        &&& after.next_id() == before.next_id()
        &&& after.log() == before.log()
    }
}

/// Answer `engine.submit_event`: `parsed` is what its parameters hold, or
/// why they could not be read.
pub fn finish_submit(
    engine: &mut EngineHandle,
    id: Option<RpcId>,
    parsed: Result<SubmitEventParams, String>,
    ts_micros: i64,
) -> (r: RpcResponse)
    requires
        old(engine).valid(),
        old(engine).next_id() < u64::MAX,
    ensures
        match parsed {
            Err(e) => r@ == err_view(id_view(id), invalid_params_view(e@)) && *final(engine)
                == *old(engine),
            Ok(params) => exists|sent: Result<(), ErrorView>| #[trigger]
                submission(
                    *old(engine),
                    *final(engine),
                    submitted(old(engine).next_id(), params, ts_micros),
                    sent,
                ) && r@ == submission_view(id_view(id), sent),
        },
        final(engine).valid(),
{
    match parsed {
        Err(e) => RpcResponse::err(id, RpcError::invalid_params(e.as_str())),
        Ok(params) => {
            let event: Event = submitted_event(engine, params, ts_micros);
            let kept: Event = event.clone();
            let ghost offered = event;
            let sent: Result<(), RpcError> = engine.forward_event(event);
            if sent.is_ok() {
                engine.log_event(kept);
                assert(engine.log().drop_last() =~= old(engine).log());
            }
            assert(submission(*old(engine), *engine, offered, sent_view(sent)));
            submission_answer(id, sent)
        },
    }
}

/// Answer with a value that the application made, or with its complaint.
pub fn finish_value(id: Option<RpcId>, value: Result<Json, String>) -> (r: RpcResponse)
    ensures
        r@ == (match value {
            Ok(v) => ok_view(id_view(id), v@),
            Err(e) => err_view(id_view(id), internal_view(e@)),
        }),
{
    match value {
        Ok(v) => RpcResponse::ok(id, v),
        Err(e) => RpcResponse::err(id, RpcError::internal(e.as_str())),
    }
}

/// Answer `engine.health`.
pub fn finish_health(engine: &EngineHandle, id: Option<RpcId>, uptime_ms: u64) -> (r: RpcResponse)
    ensures
        r@ == ok_view(id_view(id), health_view(uptime_ms, engine.counters())),
{
    RpcResponse::ok(id, engine.health(uptime_ms))
}

/// Parameters of `engine.event_log`.
#[derive(Debug, Clone, Copy, PartialEq, Eq, Structural)]
pub struct EventLogParams {
    pub since: u64,
    pub limit: u32,
}

/// How many events are sent where the client does not say.
pub fn default_limit() -> (r: u32)
    ensures
        r == 1024,
{
    1024
}

impl Default for EventLogParams {
    /// From the start, as many as are sent by default.
    fn default() -> (r: Self)
        ensures
            r == (EventLogParams { since: 0, limit: 1024 }),
    {
        EventLogParams { since: 0, limit: default_limit() }
    }
}

/// The parameters of `engine.event_log`: as the client gave them, or the
/// default where it gave none. Parameters that could not be read are
/// answered with the complaint.
pub fn event_log_params(
    id: Option<RpcId>,
    parsed: Option<Result<EventLogParams, String>>,
) -> (r: Result<(Option<RpcId>, EventLogParams), RpcResponse>)
    ensures
        match parsed {
            None => r == Ok::<_, RpcResponse>((id, EventLogParams { since: 0, limit: 1024 })),
            Some(Ok(p)) => r == Ok::<_, RpcResponse>((id, p)),
            Some(Err(e)) => r matches Err(resp) && resp@ == err_view(
                id_view(id),
                invalid_params_view(e@),
            ),
        },
{
    match parsed {
        None => Ok((id, EventLogParams::default())),
        Some(Ok(p)) => Ok((id, p)),
        Some(Err(e)) => Err(RpcResponse::err(id, RpcError::invalid_params(e.as_str()))),
    }
}

/// What came of replaying a session.
#[derive(Debug)]
pub enum ReplayOutcome {
    /// The parameters could not be read.
    BadParams(String),
    /// There is no such session, or it could not be read.
    Failed(String),
    /// The state could not be written as JSON.
    Unwritable(String),
    Replayed(Json),
}

/// Answer to `engine.replay_session`.
pub open spec fn replay_view(id: Option<IdView>, outcome: ReplayOutcome) -> ResponseView {
    match outcome {
        ReplayOutcome::BadParams(e) => err_view(id, invalid_params_view(e@)),
        ReplayOutcome::Failed(e) => err_view(id, invalid_params_view(e@)),
        ReplayOutcome::Unwritable(e) => err_view(id, internal_view(e@)),
        ReplayOutcome::Replayed(v) => ok_view(id, v@),
    }
}

/// Answer `engine.replay_session`.
pub fn finish_replay(id: Option<RpcId>, outcome: ReplayOutcome) -> (r: RpcResponse)
    ensures
        r@ == replay_view(id_view(id), outcome),
{
    match outcome {
        ReplayOutcome::BadParams(e) => RpcResponse::err(id, RpcError::invalid_params(e.as_str())),
        ReplayOutcome::Failed(e) => RpcResponse::err(id, RpcError::invalid_params(e.as_str())),
        ReplayOutcome::Unwritable(e) => RpcResponse::err(id, RpcError::internal(e.as_str())),
        ReplayOutcome::Replayed(v) => RpcResponse::ok(id, v),
    }
}

/// Answer a method of the library with what the copilot service said.
pub fn finish_library(id: Option<RpcId>, reply: Result<Json, RpcError>) -> (r: RpcResponse)
    ensures
        r@ == (match reply {
            Ok(v) => ok_view(id_view(id), v@),
            Err(e) => err_view(id_view(id), e@),
        }),
{
    match reply {
        Ok(v) => RpcResponse::ok(id, v),
        Err(e) => RpcResponse::err(id, e),
    }
}

/// Before a connection has shown its token, every valid request but
/// `auth.hello` is answered with a rejection, and none reaches the engine
/// or the copilot service.
pub proof fn pending_connections_are_refused(req: RequestView)
    requires
        req.valid(),
        req.method != method::AUTH_HELLO@,
    ensures
        routed(AuthState::PendingAuth, req) == refusal(
            req.id,
            auth_rejected_view("authentication required"@),
        ),
        gated_route(AuthState::PendingAuth, req) == refusal(
            req.id,
            auth_rejected_view("authentication required"@),
        ),
{
}

/// Once a connection has shown its token, every valid request but
/// `auth.hello` goes to the copilot service if its method begins like one of
/// the library, and to the engine otherwise.
pub proof fn open_connections_reach_everything(req: RequestView)
    requires
        req.valid(),
        req.method != method::AUTH_HELLO@,
    ensures
        routed(AuthState::Authed, req) is Library <==> LIBRARY_PREFIX@.is_prefix_of(req.method),
        !LIBRARY_PREFIX@.is_prefix_of(req.method) ==> routed(AuthState::Authed, req)
            == engine_route(req),
{
}

/// Whatever a request asks for, the answer carries its id.
pub proof fn answers_carry_the_request_id(state: AuthState, req: RequestView)
    ensures
        routed(state, req).id() == req.id,
        gated_route(state, req).id() == req.id,
        engine_route(req).id() == req.id,
{
}

/// `auth.hello` never takes back what a connection was granted, and grants
/// it only for an accepted token.
pub proof fn hello_only_promotes(
    configured: Option<Seq<char>>,
    state: AuthState,
    id: Option<IdView>,
    token: Result<Seq<char>, Seq<char>>,
    session: u64,
)
    ensures
        ({
            let (answer, next) = hello_outcome(configured, state, id, token, session);
            &&& state is Authed ==> next is Authed
            &&& answer.error is Some ==> next == state
            &&& answer.error is None ==> next is Authed && (token matches Ok(t)
                && header_accepted(configured, Some(bearer_header(t))))
        }),
{
}

/// `auth.hello` with a token opens the connection just where it is the
/// configured one, for tokens that do not end in white space.
pub proof fn hello_accepts_the_token(
    configured: Seq<char>,
    id: Option<IdView>,
    token: Seq<char>,
    session: u64,
)
    requires
        token.len() > 0,
        !is_white(token.last()),
    ensures
        hello_outcome(Some(configured), AuthState::PendingAuth, id, Ok(token), session).1 is Authed
            <==> token == configured,
{
    only_the_token_is_accepted(configured, token);
}

proof fn lemma_methods_are_distinct()
    ensures
        method::SUBMIT_EVENT@ != method::SNAPSHOT@,
        method::SUBMIT_EVENT@ != method::EVENT_LOG@,
        method::SUBMIT_EVENT@ != method::HEALTH@,
        method::SUBMIT_EVENT@ != method::LIST_EFFECTS@,
        method::SUBMIT_EVENT@ != method::LIST_SESSIONS@,
        method::SUBMIT_EVENT@ != method::REPLAY_SESSION@,
        method::SNAPSHOT@ != method::EVENT_LOG@,
        method::SNAPSHOT@ != method::HEALTH@,
        method::SNAPSHOT@ != method::LIST_EFFECTS@,
        method::SNAPSHOT@ != method::LIST_SESSIONS@,
        method::SNAPSHOT@ != method::REPLAY_SESSION@,
        method::EVENT_LOG@ != method::HEALTH@,
        method::EVENT_LOG@ != method::LIST_EFFECTS@,
        method::EVENT_LOG@ != method::LIST_SESSIONS@,
        method::EVENT_LOG@ != method::REPLAY_SESSION@,
        method::HEALTH@ != method::LIST_EFFECTS@,
        method::HEALTH@ != method::LIST_SESSIONS@,
        method::HEALTH@ != method::REPLAY_SESSION@,
        method::LIST_EFFECTS@ != method::LIST_SESSIONS@,
        method::LIST_EFFECTS@ != method::REPLAY_SESSION@,
        method::LIST_SESSIONS@ != method::REPLAY_SESSION@,
{
    reveal_strlit("engine.submit_event");
    reveal_strlit("engine.snapshot");
    reveal_strlit("engine.event_log");
    reveal_strlit("engine.health");
    reveal_strlit("engine.list_effects");
    reveal_strlit("engine.list_sessions");
    reveal_strlit("engine.replay_session");
    assert("engine.submit_event"@[7] == 's' && "engine.list_effects"@[7] == 'l');
    assert(method::SUBMIT_EVENT@.len() == 19 && method::SNAPSHOT@.len() == 15);
    assert(method::EVENT_LOG@.len() == 16 && method::HEALTH@.len() == 13);
    assert(method::LIST_EFFECTS@.len() == 19 && method::LIST_SESSIONS@.len() == 20);
    assert(method::REPLAY_SESSION@.len() == 21);
}

/// Each method of the engine is what its name says, with the request's own id
/// and parameters; a name that is none of them is not found.
pub proof fn methods_reach_what_they_name(req: RequestView)
    requires
        req.jsonrpc == "2.0"@,
        req.method.len() > 0,
    ensures
        ({
            let route = engine_route(req);
            let id = req.id;
            &&& req.method == "engine.submit_event"@ ==> (req.params matches Some(params) ==> route
                == (DispatchView::SubmitEvent { id, params }))
            &&& req.method == "engine.snapshot"@ ==> route == (DispatchView::Snapshot { id })
            &&& req.method == "engine.event_log"@ ==> route == (DispatchView::EventLog {
                id,
                query: req.params,
            })
            &&& req.method == "engine.health"@ ==> route == (DispatchView::Health { id })
            &&& req.method == "engine.list_effects"@ ==> route == DispatchView::Reply(
                ok_view(id, effects_view()),
            )
            &&& req.method == "engine.list_sessions"@ ==> route == (DispatchView::ListSessions {
                id,
            })
            &&& req.method == "engine.replay_session"@ ==> (req.params matches Some(params) ==> route
                == (DispatchView::ReplaySession { id, params }))
            &&& route is SubmitEvent ==> req.method == "engine.submit_event"@
            &&& route is ReplaySession ==> req.method == "engine.replay_session"@
            &&& route is Snapshot ==> req.method == "engine.snapshot"@
            &&& route is EventLog ==> req.method == "engine.event_log"@
            &&& route is Health ==> req.method == "engine.health"@
            &&& route is ListSessions ==> req.method == "engine.list_sessions"@
        }),
{
    lemma_methods_are_distinct();
}

/// A request is answered at once, under that id and with an error of that
/// code.
pub open spec fn fails_with(route: DispatchView, id: Option<IdView>, code: int) -> bool {
    &&& route matches DispatchView::Reply(r)
    &&& r.id == id
    &&& r.result is None
    &&& r.error matches Some(e)
    &&& e.code == code
}

/// A request that cannot be served is answered with the error that says why:
/// one that is no valid request, one without the parameters it needs, and one
/// for a method that does not exist.
pub proof fn unserved_requests_are_told_why(req: RequestView)
    ensures
        ({
            let valid = req.jsonrpc == "2.0"@ && req.method.len() > 0;
            let known = req.method == "engine.submit_event"@ || req.method == "engine.snapshot"@
                || req.method == "engine.event_log"@ || req.method == "engine.health"@
                || req.method == "engine.list_effects"@ || req.method == "engine.list_sessions"@
                || req.method == "engine.replay_session"@;
            let needy = req.method == "engine.submit_event"@ || req.method
                == "engine.replay_session"@;
            let route = engine_route(req);
            &&& !valid ==> fails_with(route, req.id, -32600) && (
            route->Reply_0.error matches Some(e) && e.data == Some(
                JsonView::Text("jsonrpc must be \"2.0\" and method non-empty"@),
            ))
            &&& valid && needy && req.params is None ==> (route->Reply_0.error matches Some(e)
                && e.data == Some(JsonView::Text("missing params"@)))
            &&& valid && needy && req.params is None ==> fails_with(route, req.id, -32602)
            &&& valid && !known ==> fails_with(route, req.id, -32601)
            &&& valid && !known ==> (engine_route(req)->Reply_0.error matches Some(e) && e.data == Some(
                JsonView::Text(req.method),
            ))
        }),
{
    lemma_methods_are_distinct();
}

/// On a connection a token is looked at in any state; before it has shown the
/// right one every other request is rejected, with the code for that; and a
/// request that is not valid is told so.
pub proof fn connections_look_at_tokens_first(state: AuthState, req: RequestView)
    ensures
        ({
            let valid = req.jsonrpc == "2.0"@ && req.method.len() > 0;
            let route = gated_route(state, req);
            let hello = req.method == "auth.hello"@;
            &&& valid && hello ==> (req.params matches Some(params) ==> route == (
            DispatchView::Hello { id: req.id, params }))
            &&& valid && hello && req.params is None ==> fails_with(route, req.id, -32602)
            &&& valid && !hello && state == AuthState::PendingAuth ==> fails_with(
                route,
                req.id,
                -32002,
            )
            &&& valid && !hello && state == AuthState::PendingAuth ==> (
            route->Reply_0.error matches Some(e) && e.data == Some(
                JsonView::Text("authentication required"@),
            ))
            &&& valid && !hello && state == AuthState::Authed ==> route == engine_route(req)
            &&& !valid ==> fails_with(route, req.id, -32600)
            &&& route is Hello ==> hello
        }),
{
}

/// Methods of the library go to the copilot service, by their own name and
/// with their own parameters, once the connection has shown its token; every
/// other request goes where it would without that service.
pub proof fn library_methods_go_to_the_copilot(state: AuthState, req: RequestView, rest: Seq<char>)
    ensures
        ({
            let route = routed(state, req);
            let valid = req.jsonrpc == "2.0"@;
            &&& valid && state == AuthState::Authed && req.method == "library."@ + rest ==> route == (
            DispatchView::Library {
                id: req.id,
                method: req.method,
                params: match req.params {
                    Some(p) => p,
                    None => JsonView::Null,
                },
            })
            &&& route is Library ==> state == AuthState::Authed && "library."@.is_prefix_of(
                req.method,
            )
            &&& !(route is Library) ==> route == gated_route(state, req)
        }),
{
    reveal_strlit("library.");
    reveal_strlit("auth.hello");
    let name = "library."@ + rest;
    assert(name[0] == 'l' && "auth.hello"@[0] == 'a');
    assert("library."@.is_prefix_of(name));
}

/// What a dispatch shows is what it holds.
pub proof fn refusals_are_answers(id: Option<IdView>, e: ErrorView)
    ensures
        refusal(id, e) matches DispatchView::Reply(r) && r.id == id && r.error == Some(e)
            && r.result is None,
{
}

/// `auth.hello` with an accepted token tells so, with the session's number,
/// and opens the connection; any other token is rejected, parameters that
/// cannot be read are told as such, and neither changes the connection.
pub proof fn hello_answers_tell_the_outcome(
    configured: Option<Seq<char>>,
    state: AuthState,
    id: Option<IdView>,
    token: Seq<char>,
    complaint: Seq<char>,
    session: u64,
)
    ensures
        ({
            let (good, open) = hello_outcome(configured, state, id, Ok(token), session);
            let (bad, same) = hello_outcome(configured, state, id, Err(complaint), session);
            let accepted = header_accepted(configured, Some("Bearer "@ + token));
            &&& good.id == id && bad.id == id
            &&& accepted ==> open == AuthState::Authed && good.error is None && (
            good.result matches Some(r) && r.field("authed"@) == Some(JsonView::Bool(true))
                && r.field("session"@) == Some(JsonView::UInt(session)))
            &&& !accepted ==> open == state && good.result is None && (good.error matches Some(e)
                && e.code == -32002 && e.data == Some(JsonView::Text("invalid token"@)))
            &&& same == state
            &&& bad.result is None
            &&& bad.error matches Some(e)
            &&& e.code == -32602
            &&& e.data == Some(JsonView::Text(complaint))
        }),
{
    reveal_strlit("authed");
    reveal_strlit("session");
    assert("authed"@.len() == 6 && "session"@.len() == 7);
    let fields = hello_view(session)->Object_0;
    fields_are_found_by_name(fields, 0, "authed"@);
    fields_are_found_by_name(fields, 1, "authed"@);
}

/// Where no token is asked for, every token opens the connection.
pub proof fn hello_without_a_token(
    state: AuthState,
    id: Option<IdView>,
    token: Seq<char>,
    session: u64,
)
    ensures
        hello_outcome(None, state, id, Ok(token), session).1 == AuthState::Authed,
{
}

/// A submission becomes an event with the next id, the time it came at, and
/// the kind and source that it names; without a source it comes from the user
/// interface.
pub proof fn submissions_become_events(
    next_id: u64,
    kind: EventKind,
    source: EventSource,
    ts_micros: i64,
)
    ensures
        submitted(
            next_id,
            SubmitEventParams::Wrapped { kind, source: Some(source) },
            ts_micros,
        ) == (Event { id: next_id, ts_micros, source, kind }),
        submitted(next_id, SubmitEventParams::Wrapped { kind, source: None }, ts_micros) == (Event {
            id: next_id,
            ts_micros,
            source: EventSource::Ui,
            kind,
        }),
        submitted(next_id, SubmitEventParams::Bare(kind), ts_micros) == (Event {
            id: next_id,
            ts_micros,
            source: EventSource::Ui,
            kind,
        }),
{
}

/// A client is told that its submission was accepted just where it was, and
/// else gets the error as it is; either answer carries its id.
pub proof fn submissions_are_answered(id: Option<IdView>, e: ErrorView)
    ensures
        submission_view(id, Ok(())).id == id,
        submission_view(id, Ok(())).error is None,
        submission_view(id, Ok(())).result matches Some(r) && r.field("accepted"@) == Some(
            JsonView::Bool(true),
        ),
        submission_view(id, Err(e)).id == id,
        submission_view(id, Err(e)).error == Some(e),
        submission_view(id, Err(e)).result is None,
{
    let fields = seq![("accepted"@, JsonView::Bool(true))];
    fields_are_found_by_name(fields, 0, "accepted"@);
}

/// A submission that the control loop takes stands at the end of the log, as
/// it was offered, and the next one gets the next number; one that it does
/// not take leaves no trace there. The state waits for the control loop.
pub proof fn taken_submissions_are_logged(
    before: EngineHandle,
    after: EngineHandle,
    event: Event,
    sent: Result<(), ErrorView>,
)
    requires
        submission(before, after, event, sent),
        event.id == before.next_id(),
    ensures
        sent is Ok <==> before.wired() && after.offered().last().1 == SendOutcome::Accepted,
        before.wired() ==> after.offered().len() == before.offered().len() + 1
            && after.offered().last().0 == event,
        !before.wired() ==> after.offered() == before.offered(),
        sent is Ok ==> {
            &&& after.log().len() == before.log().len() + 1
            &&& before.log().is_prefix_of(after.log())
            &&& after.log().last().id == event.id
            &&& after.log().last().source == event.source
            &&& after.log().last().ts_micros == event.ts_micros
            &&& !(event.kind is DeckLoad) ==> after.log().last().kind == event.kind
            &&& after.next_id() == before.next_id() + 1
        },
        sent is Err ==> after.log() == before.log() && after.next_id() == before.next_id(),
        after.state() == before.state(),
        after.counters() == before.counters(),
{
    events_are_offered_once(before, after, event, sent);
    if sent is Ok {
        copies_tell_the_same(event, after.log().last());
        assert(after.log().drop_last() =~= after.log().take(before.log().len() as int));
    }
}

/// A replay is answered with the state that it led to; parameters that cannot
/// be read and sessions that are not there are the client's fault, a state
/// that cannot be written is the server's.
pub proof fn replays_are_answered(id: Option<IdView>, text: String, state: Json)
    ensures
        replay_view(id, ReplayOutcome::Replayed(state)).result == Some(state@),
        replay_view(id, ReplayOutcome::Replayed(state)).error is None,
        replay_view(id, ReplayOutcome::Replayed(state)).id == id,
        replay_view(id, ReplayOutcome::BadParams(text)).error matches Some(e) && e.code == -32602
            && e.data == Some(JsonView::Text(text@)),
        replay_view(id, ReplayOutcome::Failed(text)).error matches Some(e) && e.code == -32602
            && e.data == Some(JsonView::Text(text@)),
        replay_view(id, ReplayOutcome::Unwritable(text)).error matches Some(e) && e.code == -32603
            && e.data == Some(JsonView::Text(text@)),
        replay_view(id, ReplayOutcome::BadParams(text)).id == id,
        replay_view(id, ReplayOutcome::Failed(text)).id == id,
        replay_view(id, ReplayOutcome::Unwritable(text)).id == id,
{
}

/// The list of effects names each effect by its number, and describes each of
/// its parameters by name, range and default, as the registry has them.
pub proof fn effects_are_listed_as_registered(k: int, i: int)
    requires
        0 <= k < 4,
        0 <= i < registry((k + 1) as u32).len(),
    ensures
        ({
            let row = registry((k + 1) as u32)[i];
            &&& effects_view().field("effects"@) matches Some(JsonView::List(effects))
            &&& effects.len() == 4
            &&& effects[k].field("id"@) == Some(JsonView::UInt((k + 1) as u64))
            &&& effects[k].field("name"@) == Some(
                JsonView::Text(
                    if k == 0 {
                        "filter"@
                    } else if k == 1 {
                        "echo"@
                    } else if k == 2 {
                        "reverb"@
                    } else {
                        "gate"@
                    },
                ),
            )
            &&& effects[k].field("params"@) matches Some(JsonView::List(params))
            &&& params.len() == registry((k + 1) as u32).len()
            &&& params[i].field("name"@) == Some(JsonView::Text(row.name))
            &&& params[i].field("min"@) == Some(JsonView::Real(row.min))
            &&& params[i].field("max"@) == Some(JsonView::Real(row.max))
            &&& params[i].field("default"@) == Some(JsonView::Real(row.default))
        }),
{
    reveal_strlit("id");
    reveal_strlit("name");
    reveal_strlit("params");
    reveal_strlit("min");
    reveal_strlit("max");
    reveal_strlit("default");
    assert("id"@.len() == 2 && "name"@.len() == 4 && "params"@.len() == 6);
    assert("min"@.len() == 3 && "max"@.len() == 3 && "default"@.len() == 7);
    assert("min"@[1] == 'i' && "max"@[1] == 'a');
    let all = effects_view()->Object_0;
    fields_are_found_by_name(all, 0, "effects"@);
    let effect = all[0].1->List_0[k]->Object_0;
    fields_are_found_by_name(effect, 0, "id"@);
    fields_are_found_by_name(effect, 1, "id"@);
    fields_are_found_by_name(effect, 2, "id"@);
    let param = effect[2].1->List_0[i]->Object_0;
    fields_are_found_by_name(param, 0, "name"@);
    fields_are_found_by_name(param, 1, "name"@);
    fields_are_found_by_name(param, 2, "name"@);
    fields_are_found_by_name(param, 3, "name"@);
}

/// The view of a text, or of the complaint about it, is the text itself.
pub proof fn text_views_show_the_text(t: String)
    ensures
        text_view(Ok(t)) == Ok::<Seq<char>, Seq<char>>(t@),
        text_view(Err(t)) == Err::<Seq<char>, Seq<char>>(t@),
{
}

/// A request that fails is answered under its own id, with the error's code
/// and without a result.
pub proof fn failures_answer_their_request(route: DispatchView, id: Option<IdView>, code: int)
    requires
        fails_with(route, id, code),
    ensures
        route is Reply,
        route->Reply_0.id == id,
        route->Reply_0.result is None,
        route->Reply_0.error is Some,
        route->Reply_0.error->Some_0.code == code,
{
}

} // verus!
