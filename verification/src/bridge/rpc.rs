//! JSON-RPC envelopes and the notifications that the bridge sends.
use vstd::prelude::*;

use super::error::{error_wire, ErrorView, RpcError};
use super::json::{
    field_of, field_views, fields_are_found_by_name, push_field, Json, JsonView,
};
use super::method;
use crate::audio::clock::ClockSource;
use crate::f32_bits::F32Bits;
use crate::state::{DeckId, EngineState};
use crate::text::same_text;

verus! {

/// Version that every envelope carries.
pub const JSONRPC_VERSION: &'static str = "2.0";

/// Id of a request: a number or a text.
#[derive(Debug, Clone, PartialEq)]
pub enum RpcId {
    Num(i64),
    Str(String),
}

/// What an id says.
pub enum IdView {
    Num(i64),
    Str(Seq<char>),
}

impl View for RpcId {
    type V = IdView;

    open spec fn view(&self) -> IdView {
        match self {
            RpcId::Num(n) => IdView::Num(*n),
            RpcId::Str(s) => IdView::Str(s@),
        }
    }
}

/// The view of an optional id.
pub open spec fn id_view(id: Option<RpcId>) -> Option<IdView> {
    match id {
        Some(i) => Some(i@),
        None => None,
    }
}

/// The view of an optional value.
pub open spec fn json_view(v: Option<Json>) -> Option<JsonView> {
    match v {
        Some(j) => Some(j@),
        None => None,
    }
}

/// A request; without an id it is a notification.
#[derive(Debug)]
pub struct RpcRequest {
    pub jsonrpc: String,
    pub method: String,
    pub params: Option<Json>,
    pub id: Option<RpcId>,
}

/// What a request says.
pub struct RequestView {
    pub jsonrpc: Seq<char>,
    pub method: Seq<char>,
    pub params: Option<JsonView>,
    pub id: Option<IdView>,
}

impl RequestView {
    /// The version is right and there is a method name.
    pub open spec fn valid(self) -> bool {
        self.jsonrpc == JSONRPC_VERSION@ && self.method.len() > 0
    }
}

impl View for RpcRequest {
    type V = RequestView;

    open spec fn view(&self) -> RequestView {
        RequestView {
            jsonrpc: self.jsonrpc@,
            method: self.method@,
            params: json_view(self.params),
            id: id_view(self.id),
        }
    }
}

impl RpcRequest {
    /// Whether the version is right and there is a method name.
    pub fn is_valid(&self) -> (r: bool)
        ensures
            r == self@.valid(),
    {
        same_text(self.jsonrpc.as_str(), JSONRPC_VERSION) && !self.method.as_str().is_empty()
    }
}

/// The answer to a request.
#[derive(Debug)]
pub struct RpcResponse {
    pub jsonrpc: String,
    pub result: Option<Json>,
    pub error: Option<RpcError>,
    pub id: Option<RpcId>,
}

/// What an answer says.
pub struct ResponseView {
    pub jsonrpc: Seq<char>,
    pub result: Option<JsonView>,
    pub error: Option<ErrorView>,
    pub id: Option<IdView>,
}

impl View for RpcResponse {
    type V = ResponseView;

    open spec fn view(&self) -> ResponseView {
        ResponseView {
            jsonrpc: self.jsonrpc@,
            result: json_view(self.result),
            error: match self.error {
                Some(e) => Some(e@),
                None => None,
            },
            id: id_view(self.id),
        }
    }
}

/// The answer with a result.
pub open spec fn ok_view(id: Option<IdView>, result: JsonView) -> ResponseView {
    ResponseView { jsonrpc: JSONRPC_VERSION@, result: Some(result), error: None, id }
}

/// The answer with an error.
pub open spec fn err_view(id: Option<IdView>, error: ErrorView) -> ResponseView {
    ResponseView { jsonrpc: JSONRPC_VERSION@, result: None, error: Some(error), id }
}

/// An id on the wire; null where there is none.
pub open spec fn id_wire(id: Option<IdView>) -> JsonView {
    match id {
        Some(IdView::Num(n)) => JsonView::Int(n),
        Some(IdView::Str(s)) => JsonView::Text(s),
        None => JsonView::Null,
    }
}

/// An answer on the wire: result and error are left out where they are
/// missing, the id never is.
pub open spec fn response_wire(r: ResponseView) -> JsonView {
    let head = seq![("jsonrpc"@, JsonView::Text(r.jsonrpc))];
    let with_result = match r.result {
        Some(v) => head.push(("result"@, v)),
        None => head,
    };
    let with_error = match r.error {
        Some(e) => with_result.push(("error"@, error_wire(e))),
        None => with_result,
    };
    JsonView::Object(with_error.push(("id"@, id_wire(r.id))))
}

impl RpcResponse {
    /// Answer with a result.
    pub fn ok(id: Option<RpcId>, result: Json) -> (r: Self)
        ensures
            r@ == ok_view(id_view(id), result@),
    {
        RpcResponse { jsonrpc: JSONRPC_VERSION.to_owned(), result: Some(result), error: None, id }
    }

    /// Answer with an error.
    pub fn err(id: Option<RpcId>, error: RpcError) -> (r: Self)
        ensures
            r@ == err_view(id_view(id), error@),
    {
        RpcResponse { jsonrpc: JSONRPC_VERSION.to_owned(), result: None, error: Some(error), id }
    }

    /// The answer as it goes onto the wire.
    pub fn into_json(self) -> (r: Json)
        ensures
            r@ == response_wire(self@),
    {
        let ghost view = self@;
        let mut fields: Vec<(String, Json)> = Vec::new();
        push_field(&mut fields, "jsonrpc", Json::Text(self.jsonrpc));
        proof {
            assert(field_views(fields@) =~= seq![("jsonrpc"@, JsonView::Text(view.jsonrpc))]);
        }
        match self.result {
            Some(v) => {
                push_field(&mut fields, "result", v);
            },
            None => {},
        }
        match self.error {
            Some(e) => {
                push_field(&mut fields, "error", e.into_json());
            },
            None => {},
        }
        let id: Json = match self.id {
            Some(RpcId::Num(n)) => Json::Int(n),
            Some(RpcId::Str(s)) => Json::Text(s),
            None => Json::Null,
        };
        push_field(&mut fields, "id", id);
        Json::object(fields)
    }
}

/// A message from the server that wants no answer.
#[derive(Debug)]
pub struct RpcNotification {
    pub jsonrpc: String,
    pub method: String,
    pub params: Json,
}

/// What a notification says.
pub struct NotificationView {
    pub jsonrpc: Seq<char>,
    pub method: Seq<char>,
    pub params: JsonView,
}

impl View for RpcNotification {
    type V = NotificationView;

    open spec fn view(&self) -> NotificationView {
        NotificationView {
            jsonrpc: self.jsonrpc@,
            method: self.method@,
            params: self.params@,
        }
    }
}

/// A notification of that method.
pub open spec fn notification_view(method: Seq<char>, params: JsonView) -> NotificationView {
    NotificationView { jsonrpc: JSONRPC_VERSION@, method, params }
}

/// A notification on the wire.
pub open spec fn notification_wire(n: NotificationView) -> JsonView {
    JsonView::Object(
        seq![
            ("jsonrpc"@, JsonView::Text(n.jsonrpc)),
            ("method"@, JsonView::Text(n.method)),
            ("params"@, n.params),
        ],
    )
}

impl RpcNotification {
    /// A notification of that method.
    pub fn new(method: &str, params: Json) -> (r: Self)
        ensures
            r@ == notification_view(method@, params@),
    {
        RpcNotification { jsonrpc: JSONRPC_VERSION.to_owned(), method: method.to_owned(), params }
    }

    /// The notification as it goes onto the wire.
    pub fn into_json(self) -> (r: Json)
        ensures
            r@ == notification_wire(self@),
    {
        let ghost view = self@;
        let mut fields: Vec<(String, Json)> = Vec::new();
        push_field(&mut fields, "jsonrpc", Json::Text(self.jsonrpc));
        push_field(&mut fields, "method", Json::Text(self.method));
        push_field(&mut fields, "params", self.params);
        proof {
            assert(field_views(fields@) =~= seq![
                ("jsonrpc"@, JsonView::Text(view.jsonrpc)),
                ("method"@, JsonView::Text(view.method)),
                ("params"@, view.params),
            ]);
        }
        Json::object(fields)
    }
}

/// Whether a connection has shown a token.
#[derive(Debug, Clone, Copy, PartialEq, Eq, Structural)]
pub enum AuthState {
    /// Not yet: only `auth.hello` is dispatched.
    PendingAuth,
    /// It has, or none is asked for.
    Authed,
}

impl AuthState {
    /// Whether the connection may call everything.
    pub fn is_authed(self) -> (r: bool)
        ensures
            r == (self is Authed),
    {
        self == AuthState::Authed
    }
}

/// What the clients are told.
#[derive(Debug, Clone)]
pub enum BridgeNotice {
    StateChanged {
        state: Box<EngineState>,
        last_event_id: u64,
        /// Gain reduction of the master limiter, in decibels.
        master_limiter_gain_reduction_db: F32Bits,
        clock_source: ClockSource,
    },
    AudioAlert { kind: String, details: String },
    /// A track could not be decoded.
    DecodeError { deck: DeckId, track_id: String, category: String, error: String },
}

/// The label of a deck on the wire.
pub open spec fn deck_label(deck: DeckId) -> Seq<char> {
    match deck {
        DeckId::A => "A"@,
        DeckId::B => "B"@,
    }
}

/// The label of a deck on the wire.
pub fn deck_name(deck: DeckId) -> (r: &'static str)
    ensures
        r@ == deck_label(deck),
{
    match deck {
        DeckId::A => "A",
        DeckId::B => "B",
    }
}

/// Notification of a new state.
pub open spec fn state_changed_view(
    state: JsonView,
    last_event_id: u64,
    gain_reduction_db: F32Bits,
    clock_source: ClockSource,
) -> NotificationView {
    notification_view(
        method::NOTIFY_STATE_CHANGED@,
        JsonView::Object(
            seq![
                ("state"@, state),
                ("last_event_id"@, JsonView::UInt(last_event_id)),
                ("master_limiter_gain_reduction_db"@, JsonView::Real(gain_reduction_db.bits)),
                ("clock_source"@, JsonView::Text(clock_source.label())),
            ],
        ),
    )
}

/// Notify of a new state. The live readings stand beside the state, because
/// they are no part of it.
pub fn state_changed_notification(
    state: Json,
    last_event_id: u64,
    master_limiter_gain_reduction_db: F32Bits,
    clock_source: ClockSource,
) -> (r: RpcNotification)
    ensures
        r@ == state_changed_view(
            state@,
            last_event_id,
            master_limiter_gain_reduction_db,
            clock_source,
        ),
{
    let mut fields: Vec<(String, Json)> = Vec::new();
    push_field(&mut fields, "state", state);
    push_field(&mut fields, "last_event_id", Json::UInt(last_event_id));
    push_field(
        &mut fields,
        "master_limiter_gain_reduction_db",
        Json::Real(master_limiter_gain_reduction_db.bits),
    );
    push_field(&mut fields, "clock_source", Json::text(clock_source.as_str()));
    proof {
        assert(field_views(fields@) =~= seq![
            ("state"@, state@),
            ("last_event_id"@, JsonView::UInt(last_event_id)),
            (
                "master_limiter_gain_reduction_db"@,
                JsonView::Real(master_limiter_gain_reduction_db.bits),
            ),
            ("clock_source"@, JsonView::Text(clock_source.label())),
        ]);
    }
    RpcNotification::new(method::NOTIFY_STATE_CHANGED, Json::object(fields))
}

/// Notification of an audio problem.
pub open spec fn audio_alert_view(kind: Seq<char>, details: Seq<char>) -> NotificationView {
    notification_view(
        method::NOTIFY_AUDIO_ALERT@,
        JsonView::Object(
            seq![("kind"@, JsonView::Text(kind)), ("details"@, JsonView::Text(details))],
        ),
    )
}

/// Notify of an audio problem.
pub fn audio_alert_notification(kind: &str, details: &str) -> (r: RpcNotification)
    ensures
        r@ == audio_alert_view(kind@, details@),
{
    let mut fields: Vec<(String, Json)> = Vec::new();
    push_field(&mut fields, "kind", Json::text(kind));
    push_field(&mut fields, "details", Json::text(details));
    proof {
        assert(field_views(fields@) =~= seq![
            ("kind"@, JsonView::Text(kind@)),
            ("details"@, JsonView::Text(details@)),
        ]);
    }
    RpcNotification::new(method::NOTIFY_AUDIO_ALERT, Json::object(fields))
}

/// Notification of a track that could not be decoded.
pub open spec fn decode_error_view(
    deck: DeckId,
    track_id: Seq<char>,
    category: Seq<char>,
    error: Seq<char>,
) -> NotificationView {
    notification_view(
        method::NOTIFY_DECODE_ERROR@,
        JsonView::Object(
            seq![
                ("deck"@, JsonView::Text(deck_label(deck))),
                ("track_id"@, JsonView::Text(track_id)),
                ("category"@, JsonView::Text(category)),
                ("error"@, JsonView::Text(error)),
            ],
        ),
    )
}

/// Notify of a track that could not be decoded: the class of the failure,
/// and its text.
pub fn decode_error_notification(deck: DeckId, track_id: &str, category: &str, error: &str) -> (r:
    RpcNotification)
    ensures
        r@ == decode_error_view(deck, track_id@, category@, error@),
{
    let mut fields: Vec<(String, Json)> = Vec::new();
    push_field(&mut fields, "deck", Json::text(deck_name(deck)));
    push_field(&mut fields, "track_id", Json::text(track_id));
    push_field(&mut fields, "category", Json::text(category));
    push_field(&mut fields, "error", Json::text(error));
    proof {
        assert(field_views(fields@) =~= seq![
            ("deck"@, JsonView::Text(deck_label(deck))),
            ("track_id"@, JsonView::Text(track_id@)),
            ("category"@, JsonView::Text(category@)),
            ("error"@, JsonView::Text(error@)),
        ]);
    }
    RpcNotification::new(method::NOTIFY_DECODE_ERROR, Json::object(fields))
}

/// The notification that a notice stands for; `state` is the state of the
/// notice, where it carries one, as JSON.
pub open spec fn notice_view(notice: BridgeNotice, state: JsonView) -> NotificationView {
    match notice {
        BridgeNotice::StateChanged {
            state: _,
            last_event_id,
            master_limiter_gain_reduction_db,
            clock_source,
        } => state_changed_view(
            state,
            last_event_id,
            master_limiter_gain_reduction_db,
            clock_source,
        ),
        BridgeNotice::AudioAlert { kind, details } => audio_alert_view(kind@, details@),
        BridgeNotice::DecodeError { deck, track_id, category, error } => decode_error_view(
            deck,
            track_id@,
            category@,
            error@,
        ),
    }
}

/// Make the notification that a notice stands for. `state` is the state of
/// the notice, where it carries one, as JSON.
pub fn notice_notification(notice: &BridgeNotice, state: Json) -> (r: RpcNotification)
    ensures
        r@ == notice_view(*notice, state@),
{
    match notice {
        BridgeNotice::StateChanged {
            state: _,
            last_event_id,
            master_limiter_gain_reduction_db,
            clock_source,
        } => state_changed_notification(
            state,
            *last_event_id,
            *master_limiter_gain_reduction_db,
            *clock_source,
        ),
        BridgeNotice::AudioAlert { kind, details } => audio_alert_notification(
            kind.as_str(),
            details.as_str(),
        ),
        BridgeNotice::DecodeError { deck, track_id, category, error } => decode_error_notification(
            *deck,
            track_id.as_str(),
            category.as_str(),
            error.as_str(),
        ),
    }
}

/// Looking a name up among three fields.
proof fn field_among_three(fields: Seq<(Seq<char>, JsonView)>, key: Seq<char>)
    requires
        fields.len() == 3,
    ensures
        field_of(fields, key) == (if fields[0].0 == key {
            Some(fields[0].1)
        } else if fields[1].0 == key {
            Some(fields[1].1)
        } else if fields[2].0 == key {
            Some(fields[2].1)
        } else {
            None
        }),
{
    reveal_with_fuel(field_of, 4);
    assert(fields.skip(1)[0] == fields[1]);
    assert(fields.skip(1).skip(1)[0] == fields[2]);
    assert(fields.skip(1).skip(1).skip(1).len() == 0);
}

/// An answer carries a result or an error, never both, and always its id.
pub proof fn answers_are_either_or(id: Option<IdView>, result: JsonView, error: ErrorView)
    ensures
        response_wire(ok_view(id, result)).field("error"@) is None,
        response_wire(ok_view(id, result)).field("result"@) == Some(result),
        response_wire(err_view(id, error)).field("result"@) is None,
        response_wire(err_view(id, error)).field("error"@) == Some(error_wire(error)),
        response_wire(ok_view(id, result)).field("id"@) == Some(id_wire(id)),
        response_wire(err_view(id, error)).field("id"@) == Some(id_wire(id)),
{
    reveal_strlit("jsonrpc");
    reveal_strlit("result");
    reveal_strlit("error");
    reveal_strlit("id");
    assert("jsonrpc"@.len() == 7 && "result"@.len() == 6 && "error"@.len() == 5 && "id"@.len() == 2);
    let ok = ok_view(id, result);
    let head = ("jsonrpc"@, JsonView::Text(ok.jsonrpc));
    let tail = ("id"@, id_wire(id));
    let ok_fields = seq![head, ("result"@, result), tail];
    assert(response_wire(ok)->Object_0 =~= ok_fields);
    let err_fields = seq![head, ("error"@, error_wire(error)), tail];
    assert(response_wire(err_view(id, error))->Object_0 =~= err_fields);
    field_among_three(ok_fields, "error"@);
    field_among_three(ok_fields, "result"@);
    field_among_three(ok_fields, "id"@);
    field_among_three(err_fields, "error"@);
    field_among_three(err_fields, "result"@);
    field_among_three(err_fields, "id"@);
}

/// A request is valid where it names the version 2.0 and some method.
pub proof fn requests_name_version_and_method(req: RequestView)
    ensures
        req.valid() <==> req.jsonrpc == "2.0"@ && req.method.len() > 0,
{
}

/// An answer carries the id of its request, the version 2.0, and the result
/// or the error that it was made of.
pub proof fn answers_carry_what_they_were_made_of(
    id: Option<IdView>,
    result: JsonView,
    error: ErrorView,
)
    ensures
        ok_view(id, result).id == id,
        ok_view(id, result).jsonrpc == "2.0"@,
        ok_view(id, result).result == Some(result),
        ok_view(id, result).error is None,
        err_view(id, error).id == id,
        err_view(id, error).jsonrpc == "2.0"@,
        err_view(id, error).error == Some(error),
        err_view(id, error).result is None,
{
}

/// An id goes onto the wire as the number or the text that it is, and none as
/// null.
pub proof fn ids_go_onto_the_wire(n: i64, s: Seq<char>)
    ensures
        id_wire(Some(IdView::Num(n))) == JsonView::Int(n),
        id_wire(Some(IdView::Str(s))) == JsonView::Text(s),
        id_wire(None) == JsonView::Null,
{
}

/// On the wire an answer shows its version, and result, error and id as it
/// carries them.
pub proof fn answers_show_on_the_wire(r: ResponseView)
    requires
        r.result is None || r.error is None,
    ensures
        response_wire(r).field("jsonrpc"@) == Some(JsonView::Text(r.jsonrpc)),
        response_wire(r).field("result"@) == r.result,
        response_wire(r).field("error"@) == (match r.error {
            Some(e) => Some(error_wire(e)),
            None => None,
        }),
        response_wire(r).field("id"@) == Some(id_wire(r.id)),
{
    reveal_strlit("jsonrpc");
    reveal_strlit("result");
    reveal_strlit("error");
    reveal_strlit("id");
    assert("jsonrpc"@.len() == 7 && "result"@.len() == 6 && "error"@.len() == 5 && "id"@.len() == 2);
    let fields = response_wire(r)->Object_0;
    fields_are_found_by_name(fields, 0, "result"@);
    fields_are_found_by_name(fields, 1, "error"@);
    fields_are_found_by_name(fields, 2, "error"@);
    fields_are_found_by_name(fields, 2, "result"@);
}

/// A notification shows its version, its method and its parameters.
pub proof fn notifications_show_on_the_wire(method: Seq<char>, params: JsonView)
    ensures
        notification_wire(notification_view(method, params)).field("jsonrpc"@) == Some(
            JsonView::Text("2.0"@),
        ),
        notification_wire(notification_view(method, params)).field("method"@) == Some(
            JsonView::Text(method),
        ),
        notification_wire(notification_view(method, params)).field("params"@) == Some(params),
{
    reveal_strlit("jsonrpc");
    reveal_strlit("method");
    reveal_strlit("params");
    assert("jsonrpc"@.len() == 7 && "method"@.len() == 6 && "params"@.len() == 6);
    assert("method"@[0] == 'm' && "params"@[0] == 'p');
    let fields = notification_wire(notification_view(method, params))->Object_0;
    fields_are_found_by_name(fields, 0, method);
    fields_are_found_by_name(fields, 1, method);
    fields_are_found_by_name(fields, 2, method);
}

/// The decks have labels of their own.
pub proof fn decks_have_labels()
    ensures
        deck_label(DeckId::A) == "A"@,
        deck_label(DeckId::B) == "B"@,
{
}

/// A notice of a new state tells the state, the id of the last event and both
/// live readings.
pub proof fn state_notices_tell_everything(
    state: JsonView,
    last_event_id: u64,
    gain_reduction_db: F32Bits,
    clock_source: ClockSource,
)
    ensures
        ({
            let n = state_changed_view(state, last_event_id, gain_reduction_db, clock_source);
            &&& n.jsonrpc == "2.0"@
            &&& n.method == "engine.state_changed"@
            &&& n.params.field("state"@) == Some(state)
            &&& n.params.field("last_event_id"@) == Some(JsonView::UInt(last_event_id))
            &&& n.params.field("master_limiter_gain_reduction_db"@) == Some(
                JsonView::Real(gain_reduction_db.bits),
            )
            &&& n.params.field("clock_source"@) == Some(JsonView::Text(clock_source.label()))
        }),
{
    reveal_strlit("state");
    reveal_strlit("last_event_id");
    reveal_strlit("master_limiter_gain_reduction_db");
    reveal_strlit("clock_source");
    assert("state"@.len() == 5 && "last_event_id"@.len() == 13 && "clock_source"@.len() == 12);
    assert("master_limiter_gain_reduction_db"@.len() == 32);
    let fields = state_changed_view(
        state,
        last_event_id,
        gain_reduction_db,
        clock_source,
    ).params->Object_0;
    fields_are_found_by_name(fields, 0, "state"@);
    fields_are_found_by_name(fields, 1, "state"@);
    fields_are_found_by_name(fields, 2, "state"@);
    fields_are_found_by_name(fields, 3, "state"@);
}

/// A notice of an audio problem tells its kind and the details.
pub proof fn alert_notices_tell_kind_and_details(kind: Seq<char>, details: Seq<char>)
    ensures
        ({
            let n = audio_alert_view(kind, details);
            &&& n.jsonrpc == "2.0"@
            &&& n.method == "engine.audio_alert"@
            &&& n.params.field("kind"@) == Some(JsonView::Text(kind))
            &&& n.params.field("details"@) == Some(JsonView::Text(details))
        }),
{
    reveal_strlit("kind");
    reveal_strlit("details");
    assert("kind"@.len() == 4 && "details"@.len() == 7);
    let fields = audio_alert_view(kind, details).params->Object_0;
    fields_are_found_by_name(fields, 0, kind);
    fields_are_found_by_name(fields, 1, kind);
}

/// A notice of a track that could not be decoded tells deck, track, class and
/// text.
pub proof fn decode_notices_tell_deck_and_track(
    deck: DeckId,
    track_id: Seq<char>,
    category: Seq<char>,
    error: Seq<char>,
)
    ensures
        ({
            let n = decode_error_view(deck, track_id, category, error);
            &&& n.jsonrpc == "2.0"@
            &&& n.method == "engine.decode_error"@
            &&& n.params.field("deck"@) == Some(
                JsonView::Text(
                    if deck == DeckId::A {
                        "A"@
                    } else {
                        "B"@
                    },
                ),
            )
            &&& n.params.field("track_id"@) == Some(JsonView::Text(track_id))
            &&& n.params.field("category"@) == Some(JsonView::Text(category))
            &&& n.params.field("error"@) == Some(JsonView::Text(error))
        }),
{
    reveal_strlit("deck");
    reveal_strlit("track_id");
    reveal_strlit("category");
    reveal_strlit("error");
    assert("deck"@.len() == 4 && "track_id"@.len() == 8 && "category"@.len() == 8);
    assert("error"@.len() == 5 && "track_id"@[0] == 't' && "category"@[0] == 'c');
    let fields = decode_error_view(deck, track_id, category, error).params->Object_0;
    fields_are_found_by_name(fields, 0, error);
    fields_are_found_by_name(fields, 1, error);
    fields_are_found_by_name(fields, 2, error);
    fields_are_found_by_name(fields, 3, error);
}

/// Each notice goes out as the notification of its kind, with what it holds.
pub proof fn notices_go_out_as_their_kind(notice: BridgeNotice, state: JsonView)
    ensures
        ({
            let n = notice_view(notice, state);
            match notice {
                BridgeNotice::StateChanged { last_event_id, .. } => n.method
                    == "engine.state_changed"@ && n.params.field("state"@) == Some(state)
                    && n.params.field("last_event_id"@) == Some(JsonView::UInt(last_event_id)),
                BridgeNotice::AudioAlert { kind, details } => n.method == "engine.audio_alert"@
                    && n.params.field("kind"@) == Some(JsonView::Text(kind@)) && n.params.field(
                    "details"@,
                ) == Some(JsonView::Text(details@)),
                BridgeNotice::DecodeError { deck, track_id, category, error } => n.method
                    == "engine.decode_error"@ && n.params.field("track_id"@) == Some(
                    JsonView::Text(track_id@),
                ) && n.params.field("category"@) == Some(JsonView::Text(category@))
                    && n.params.field("error"@) == Some(JsonView::Text(error@)) && n.params.field(
                    "deck"@,
                ) == Some(JsonView::Text(deck_label(deck))),
            }
        }),
{
    match notice {
        BridgeNotice::StateChanged {
            state: _,
            last_event_id,
            master_limiter_gain_reduction_db,
            clock_source,
        } => {
            state_notices_tell_everything(
                state,
                last_event_id,
                master_limiter_gain_reduction_db,
                clock_source,
            );
        },
        BridgeNotice::AudioAlert { kind, details } => {
            alert_notices_tell_kind_and_details(kind@, details@);
        },
        BridgeNotice::DecodeError { deck, track_id, category, error } => {
            decode_notices_tell_deck_and_track(deck, track_id@, category@, error@);
        },
    }
}

/// A notice of a new state also tells the live readings that it was made
/// with.
pub proof fn state_notices_tell_the_readings(
    state: EngineState,
    shown: JsonView,
    last_event_id: u64,
    gain: F32Bits,
    clock_source: ClockSource,
)
    ensures
        ({
            let n = notice_view(
                BridgeNotice::StateChanged {
                    state: Box::new(state),
                    last_event_id,
                    master_limiter_gain_reduction_db: gain,
                    clock_source,
                },
                shown,
            );
            &&& n.params.field("master_limiter_gain_reduction_db"@) == Some(
                JsonView::Real(gain.bits),
            )
            &&& n.params.field("clock_source"@) == Some(JsonView::Text(clock_source.label()))
        }),
{
    state_notices_tell_everything(shown, last_event_id, gain, clock_source);
}

/// Views of what may be missing show it where it is there.
pub proof fn optional_views_show_what_is_there(
    id: Option<RpcId>,
    v: Option<Json>,
    n: i64,
    s: String,
)
    ensures
        id is None <==> id_view(id) is None,
        id matches Some(i) ==> id_view(id) == Some(i@),
        v is None <==> json_view(v) is None,
        v matches Some(j) ==> json_view(v) == Some(j@),
        RpcId::Num(n)@ == IdView::Num(n),
        RpcId::Str(s)@ == IdView::Str(s@),
{
}

} // verus!
