//! JSON-RPC error objects.
use vstd::prelude::*;

use super::json::{
    field_of, field_views, fields_are_found_by_name, push_field, Json, JsonView,
};

verus! {

/// The text received is not JSON.
pub const PARSE_ERROR: i32 = -32700;

/// The payload is no valid request.
pub const INVALID_REQUEST: i32 = -32600;

/// No such method.
pub const METHOD_NOT_FOUND: i32 = -32601;

/// The method exists, its parameters have the wrong shape.
pub const INVALID_PARAMS: i32 = -32602;

/// The server failed.
pub const INTERNAL_ERROR: i32 = -32603;

/// The control loop takes no events: its channel is full or closed.
pub const ENGINE_OFFLINE: i32 = -32000;

/// The engine was built without an event channel.
pub const ENGINE_SINK_UNWIRED: i32 = -32001;

/// The bearer token is missing or wrong.
pub const AUTH_REJECTED: i32 = -32002;

/// The client submits events too fast.
pub const RATE_LIMITED: i32 = -32003;

/// The error member of a response.
#[derive(Debug, PartialEq)]
pub struct RpcError {
    pub code: i32,
    pub message: String,
    pub data: Option<Json>,
}

/// What an error says.
pub struct ErrorView {
    pub code: i32,
    pub message: Seq<char>,
    pub data: Option<JsonView>,
}

impl View for RpcError {
    type V = ErrorView;

    open spec fn view(&self) -> ErrorView {
        ErrorView {
            code: self.code,
            message: self.message@,
            data: match self.data {
                Some(d) => Some(d@),
                None => None,
            },
        }
    }
}

/// An error whose data is a text.
pub open spec fn with_detail(code: i32, message: Seq<char>, detail: Seq<char>) -> ErrorView {
    ErrorView { code, message, data: Some(JsonView::Text(detail)) }
}

/// "The text received is not JSON", and why.
pub open spec fn parse_error_view(detail: Seq<char>) -> ErrorView {
    with_detail(PARSE_ERROR, "Parse error"@, detail)
}

/// "The payload is no valid request", and why.
pub open spec fn invalid_request_view(detail: Seq<char>) -> ErrorView {
    with_detail(INVALID_REQUEST, "Invalid Request"@, detail)
}

/// "No such method", and its name.
pub open spec fn method_not_found_view(method: Seq<char>) -> ErrorView {
    with_detail(METHOD_NOT_FOUND, "Method not found"@, method)
}

/// "The parameters have the wrong shape", and why.
pub open spec fn invalid_params_view(detail: Seq<char>) -> ErrorView {
    with_detail(INVALID_PARAMS, "Invalid params"@, detail)
}

/// "The server failed", and why.
pub open spec fn internal_view(detail: Seq<char>) -> ErrorView {
    with_detail(INTERNAL_ERROR, "Internal error"@, detail)
}

/// "The bearer token is missing or wrong", and which.
pub open spec fn auth_rejected_view(detail: Seq<char>) -> ErrorView {
    with_detail(AUTH_REJECTED, "Authentication rejected"@, detail)
}

/// "Events come too fast", and after how many milliseconds one is taken.
pub open spec fn rate_limited_view(retry_after_ms: u64) -> ErrorView {
    ErrorView {
        code: RATE_LIMITED,
        message: "Rate limited"@,
        data: Some(
            JsonView::Object(seq![("retry_after_ms"@, JsonView::UInt(retry_after_ms))]),
        ),
    }
}

/// "The control loop takes no events", and why.
pub open spec fn engine_offline_view(detail: Seq<char>) -> ErrorView {
    with_detail(ENGINE_OFFLINE, "engine offline"@, detail)
}

/// "There is no event channel", and why.
pub open spec fn engine_sink_unwired_view(detail: Seq<char>) -> ErrorView {
    with_detail(ENGINE_SINK_UNWIRED, "engine sink not wired"@, detail)
}

/// An error on the wire: its data is left out where it has none.
pub open spec fn error_wire(e: ErrorView) -> JsonView {
    let head = seq![
        ("code"@, JsonView::Int(e.code as i64)),
        ("message"@, JsonView::Text(e.message)),
    ];
    JsonView::Object(
        match e.data {
            Some(d) => head.push(("data"@, d)),
            None => head,
        },
    )
}

impl RpcError {
    /// An error without data.
    pub fn new(code: i32, message: &str) -> (r: Self)
        ensures
            r@ == (ErrorView { code, message: message@, data: None }),
    {
        RpcError { code, message: message.to_owned(), data: None }
    }

    fn detailed(code: i32, message: &str, detail: &str) -> (r: Self)
        ensures
            r@ == with_detail(code, message@, detail@),
    {
        RpcError { code, message: message.to_owned(), data: Some(Json::text(detail)) }
    }

    /// The text received is not JSON.
    pub fn parse_error(detail: &str) -> (r: Self)
        ensures
            r@ == parse_error_view(detail@),
    {
        RpcError::detailed(PARSE_ERROR, "Parse error", detail)
    }

    /// The payload is no valid request.
    pub fn invalid_request(detail: &str) -> (r: Self)
        ensures
            r@ == invalid_request_view(detail@),
    {
        RpcError::detailed(INVALID_REQUEST, "Invalid Request", detail)
    }

    /// There is no such method.
    pub fn method_not_found(method: &str) -> (r: Self)
        ensures
            r@ == method_not_found_view(method@),
    {
        RpcError::detailed(METHOD_NOT_FOUND, "Method not found", method)
    }

    /// The parameters have the wrong shape.
    pub fn invalid_params(detail: &str) -> (r: Self)
        ensures
            r@ == invalid_params_view(detail@),
    {
        RpcError::detailed(INVALID_PARAMS, "Invalid params", detail)
    }

    /// The server failed.
    pub fn internal(detail: &str) -> (r: Self)
        ensures
            r@ == internal_view(detail@),
    {
        RpcError::detailed(INTERNAL_ERROR, "Internal error", detail)
    }

    /// The bearer token is missing or wrong.
    pub fn auth_rejected(detail: &str) -> (r: Self)
        ensures
            r@ == auth_rejected_view(detail@),
    {
        RpcError::detailed(AUTH_REJECTED, "Authentication rejected", detail)
    }

    /// The event channel is full or closed; a client may try again later.
    pub fn engine_offline(detail: &str) -> (r: Self)
        ensures
            r@ == engine_offline_view(detail@),
    {
        RpcError::detailed(ENGINE_OFFLINE, "engine offline", detail)
    }

    /// The engine has no event channel; reads still work.
    pub fn engine_sink_unwired(detail: &str) -> (r: Self)
        ensures
            r@ == engine_sink_unwired_view(detail@),
    {
        RpcError::detailed(ENGINE_SINK_UNWIRED, "engine sink not wired", detail)
    }

    /// Events come too fast; one will be taken after that time.
    pub fn rate_limited(retry_after_ms: u64) -> (r: Self)
        ensures
            r@ == rate_limited_view(retry_after_ms),
    {
        let mut fields: Vec<(String, Json)> = Vec::new();
        push_field(&mut fields, "retry_after_ms", Json::UInt(retry_after_ms));
        proof {
            assert(field_views(fields@) =~= seq![
                ("retry_after_ms"@, JsonView::UInt(retry_after_ms)),
            ]);
        }
        RpcError {
            code: RATE_LIMITED,
            message: "Rate limited".to_owned(),
            data: Some(Json::object(fields)),
        }
    }

    /// The error as it goes onto the wire.
    pub fn into_json(self) -> (r: Json)
        ensures
            r@ == error_wire(self@),
    {
        let ghost view = self@;
        let code: i64 = self.code as i64;
        let mut fields: Vec<(String, Json)> = Vec::new();
        push_field(&mut fields, "code", Json::Int(code));
        push_field(&mut fields, "message", Json::Text(self.message));
        proof {
            assert(field_views(fields@) =~= seq![
                ("code"@, JsonView::Int(view.code as i64)),
                ("message"@, JsonView::Text(view.message)),
            ]);
        }
        match self.data {
            Some(d) => {
                push_field(&mut fields, "data", d);
            },
            None => {},
        }
        Json::object(fields)
    }
}

/// Every error carries the code that stands for it on the wire, and as its
/// data the detail that came with it.
pub proof fn errors_carry_their_code(detail: Seq<char>, retry_after_ms: u64)
    ensures
        parse_error_view(detail).code == -32700,
        invalid_request_view(detail).code == -32600,
        method_not_found_view(detail).code == -32601,
        invalid_params_view(detail).code == -32602,
        internal_view(detail).code == -32603,
        engine_offline_view(detail).code == -32000,
        engine_sink_unwired_view(detail).code == -32001,
        auth_rejected_view(detail).code == -32002,
        rate_limited_view(retry_after_ms).code == -32003,
        parse_error_view(detail).data == Some(JsonView::Text(detail)),
        invalid_request_view(detail).data == Some(JsonView::Text(detail)),
        method_not_found_view(detail).data == Some(JsonView::Text(detail)),
        invalid_params_view(detail).data == Some(JsonView::Text(detail)),
        internal_view(detail).data == Some(JsonView::Text(detail)),
        engine_offline_view(detail).data == Some(JsonView::Text(detail)),
        engine_sink_unwired_view(detail).data == Some(JsonView::Text(detail)),
        auth_rejected_view(detail).data == Some(JsonView::Text(detail)),
        parse_error_view(detail).message == "Parse error"@,
        invalid_request_view(detail).message == "Invalid Request"@,
        method_not_found_view(detail).message == "Method not found"@,
        invalid_params_view(detail).message == "Invalid params"@,
        internal_view(detail).message == "Internal error"@,
        engine_offline_view(detail).message == "engine offline"@,
        engine_sink_unwired_view(detail).message == "engine sink not wired"@,
        auth_rejected_view(detail).message == "Authentication rejected"@,
        rate_limited_view(retry_after_ms).message == "Rate limited"@,
{
}

/// An error for a client that comes too fast tells how long to wait.
pub proof fn limits_tell_the_wait(retry_after_ms: u64)
    ensures
        rate_limited_view(retry_after_ms).data matches Some(d) && d.field("retry_after_ms"@) == Some(
            JsonView::UInt(retry_after_ms),
        ),
{
    let fields = seq![("retry_after_ms"@, JsonView::UInt(retry_after_ms))];
    fields_are_found_by_name(fields, 0, "retry_after_ms"@);
}

/// On the wire an error shows its code, its message, and its data where it
/// has some.
pub proof fn errors_show_on_the_wire(e: ErrorView)
    ensures
        error_wire(e).field("code"@) == Some(JsonView::Int(e.code as i64)),
        error_wire(e).field("message"@) == Some(JsonView::Text(e.message)),
        error_wire(e).field("data"@) == e.data,
{
    reveal_strlit("code");
    reveal_strlit("message");
    reveal_strlit("data");
    let fields = error_wire(e)->Object_0;
    assert("code"@.len() == 4 && "message"@.len() == 7 && "data"@.len() == 4);
    assert("code"@[0] == 'c' && "data"@[0] == 'd');
    fields_are_found_by_name(fields, 0, "data"@);
    fields_are_found_by_name(fields, 1, "data"@);
    fields_are_found_by_name(fields, 2, "data"@);
}

} // verus!
