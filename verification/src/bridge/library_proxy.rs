//! Methods of the library, answered by the copilot service over HTTP.
//!
//! The application posts the request; what is posted, and what the reply
//! means, is decided here.
use vstd::prelude::*;

use super::error::{engine_offline_view, ErrorView, RpcError};
use super::json::{field_views, fields_are_found_by_name, push_field, Json, JsonView};
use super::rpc::JSONRPC_VERSION;
use crate::text::{occurs_in, pieces_occur};

verus! {

/// Name of the environment variable that holds the address of the copilot
/// service.
pub const ENV_COPILOT_URL: &'static str = "HYPEHOUSE_COPILOT_URL";

/// The address where the variable is not set.
pub const DEFAULT_COPILOT_URL: &'static str = "http://127.0.0.1:8766/rpc";

/// Seconds that a call may take.
pub const COPILOT_RPC_TIMEOUT: u64 = 5;

/// The address to post to, for a value of the environment variable. An
/// empty value switches the service off.
pub fn resolve_copilot_url(value: Option<&str>) -> (r: Option<String>)
    ensures
        match value {
            None => r matches Some(u) && u@ == DEFAULT_COPILOT_URL@,
            Some(v) => if v@.len() == 0 {
                r is None
            } else {
                r matches Some(u) && u@ == v@
            },
        },
{
    match value {
        None => Some(DEFAULT_COPILOT_URL.to_owned()),
        Some(v) => {
            if v.is_empty() {
                None
            } else {
                Some(v.to_owned())
            }
        },
    }
}

/// The request that is posted. Every call is a connection of its own, so the
/// id is always 1.
pub open spec fn proxied_request_view(method: Seq<char>, params: JsonView) -> JsonView {
    JsonView::Object(
        seq![
            ("jsonrpc"@, JsonView::Text(JSONRPC_VERSION@)),
            ("method"@, JsonView::Text(method)),
            ("params"@, params),
            ("id"@, JsonView::UInt(1)),
        ],
    )
}

/// The request to post.
pub fn proxied_request(method: &str, params: Json) -> (r: Json)
    ensures
        r@ == proxied_request_view(method@, params@),
{
    let mut fields: Vec<(String, Json)> = Vec::new();
    push_field(&mut fields, "jsonrpc", Json::text(JSONRPC_VERSION));
    push_field(&mut fields, "method", Json::text(method));
    push_field(&mut fields, "params", params);
    push_field(&mut fields, "id", Json::UInt(1));
    proof {
        assert(field_views(fields@) =~= proxied_request_view(method@, params@)->Object_0);
    }
    Json::object(fields)
}

/// The reply of the copilot service.
#[derive(Debug)]
pub struct ProxiedResponse {
    pub result: Option<Json>,
    pub error: Option<RpcError>,
}

/// What came of a call.
#[derive(Debug)]
pub enum ProxyReply {
    /// There is no service to call.
    Disabled,
    /// No reply; what the HTTP client says of why.
    Unreachable { is_timeout: bool, is_connect: bool, is_request: bool, error: String },
    /// A reply with a status that is no success.
    BadStatus(String),
    /// A reply that could not be read.
    Unreadable(String),
    Envelope(ProxiedResponse),
}

/// The class of a call without a reply.
pub open spec fn failure_kind(is_timeout: bool, is_connect: bool, is_request: bool) -> Seq<char> {
    if is_timeout {
        "timeout"@
    } else if is_connect {
        "connect_refused"@
    } else if is_request {
        "request_failed"@
    } else {
        "io_error"@
    }
}

/// "The copilot service did not reply", and why.
pub open spec fn copilot_unavailable_view(
    kind: Seq<char>,
    url: Seq<char>,
    error: Seq<char>,
) -> ErrorView {
    engine_offline_view("copilot unavailable ("@ + kind + ") at "@ + url + ": "@ + error)
}

/// What a reply means: the result, or the error to hand on. An error of the
/// copilot service is handed on as it is.
pub open spec fn reply_view(url: Seq<char>, reply: ProxyReply) -> Result<JsonView, ErrorView> {
    match reply {
        ProxyReply::Disabled => Err(engine_offline_view("copilot proxy disabled"@)),
        ProxyReply::Unreachable { is_timeout, is_connect, is_request, error } => Err(
            copilot_unavailable_view(
                failure_kind(is_timeout, is_connect, is_request),
                url,
                error@,
            ),
        ),
        ProxyReply::BadStatus(status) => Err(
            engine_offline_view("copilot returned HTTP "@ + status@),
        ),
        ProxyReply::Unreadable(error) => Err(
            engine_offline_view("copilot returned invalid JSON-RPC: "@ + error@),
        ),
        ProxyReply::Envelope(e) => match e.error {
            Some(err) => Err(err@),
            None => match e.result {
                Some(v) => Ok(v@),
                None => Err(
                    engine_offline_view(
                        "copilot returned envelope with neither result nor error"@,
                    ),
                ),
            },
        },
    }
}

/// The view of a call's result.
pub open spec fn call_view(r: Result<Json, RpcError>) -> Result<JsonView, ErrorView> {
    match r {
        Ok(v) => Ok(v@),
        Err(e) => Err(e@),
    }
}

/// The error for a call without a reply. It tells a service that hangs from
/// one that is not there.
pub fn copilot_unavailable(
    url: &str,
    is_timeout: bool,
    is_connect: bool,
    is_request: bool,
    error: &str,
) -> (r: RpcError)
    ensures
        r@ == copilot_unavailable_view(
            failure_kind(is_timeout, is_connect, is_request),
            url@,
            error@,
        ),
{
    let kind: &str = if is_timeout {
        "timeout"
    } else if is_connect {
        "connect_refused"
    } else if is_request {
        "request_failed"
    } else {
        "io_error"
    };
    let text: String = "copilot unavailable (".to_owned().concat(kind).concat(") at ").concat(
        url,
    ).concat(": ").concat(error);
    RpcError::engine_offline(text.as_str())
}

/// What a reply means.
pub fn forward_library_call(url: &str, reply: ProxyReply) -> (r: Result<Json, RpcError>)
    ensures
        call_view(r) == reply_view(url@, reply),
{
    match reply {
        ProxyReply::Disabled => Err(RpcError::engine_offline("copilot proxy disabled")),
        ProxyReply::Unreachable { is_timeout, is_connect, is_request, error } => Err(
            copilot_unavailable(url, is_timeout, is_connect, is_request, error.as_str()),
        ),
        ProxyReply::BadStatus(status) => {
            let text: String = "copilot returned HTTP ".to_owned().concat(status.as_str());
            Err(RpcError::engine_offline(text.as_str()))
        },
        ProxyReply::Unreadable(error) => {
            let text: String = "copilot returned invalid JSON-RPC: ".to_owned().concat(
                error.as_str(),
            );
            Err(RpcError::engine_offline(text.as_str()))
        },
        ProxyReply::Envelope(e) => match e.error {
            Some(err) => Err(err),
            None => match e.result {
                Some(v) => Ok(v),
                None => Err(
                    RpcError::engine_offline(
                        "copilot returned envelope with neither result nor error",
                    ),
                ),
            },
        },
    }
}

/// Whatever goes wrong on the way, and whatever the copilot service sends
/// that is no envelope, the client is told that it is offline; an error in
/// the envelope is handed on as it is.
pub proof fn failures_are_offline_errors(url: Seq<char>, reply: ProxyReply)
    ensures
        !(reply is Envelope) ==> (reply_view(url, reply) matches Err(e) && e.code
            == super::error::ENGINE_OFFLINE),
        reply matches ProxyReply::Envelope(e) ==> (e.error matches Some(err) ==> reply_view(
            url,
            reply,
        ) == Err::<JsonView, ErrorView>(err@)),
{
}

/// The request that is posted names the method that was called, with its
/// parameters.
pub proof fn posted_requests_name_the_call(method: Seq<char>, params: JsonView)
    ensures
        proxied_request_view(method, params).field("jsonrpc"@) == Some(JsonView::Text("2.0"@)),
        proxied_request_view(method, params).field("method"@) == Some(JsonView::Text(method)),
        proxied_request_view(method, params).field("params"@) == Some(params),
        proxied_request_view(method, params).field("id"@) == Some(JsonView::UInt(1)),
{
    reveal_strlit("jsonrpc");
    reveal_strlit("method");
    reveal_strlit("params");
    reveal_strlit("id");
    assert("jsonrpc"@.len() == 7 && "method"@.len() == 6 && "params"@.len() == 6);
    assert("id"@.len() == 2 && "method"@[0] == 'm' && "params"@[0] == 'p');
    let fields = proxied_request_view(method, params)->Object_0;
    fields_are_found_by_name(fields, 0, method);
    fields_are_found_by_name(fields, 1, method);
    fields_are_found_by_name(fields, 2, method);
    fields_are_found_by_name(fields, 3, method);
}

/// The class of a call without a reply tells its causes apart: a service that
/// hangs before one that is not there, and that before a request that failed.
pub proof fn failure_kinds_tell_causes_apart(is_connect: bool, is_request: bool)
    ensures
        failure_kind(true, is_connect, is_request) == "timeout"@,
        failure_kind(false, true, is_request) == "connect_refused"@,
        failure_kind(false, false, true) == "request_failed"@,
        failure_kind(false, false, false) == "io_error"@,
{
}

/// What the copilot service answered goes on as it is, result or error; the
/// error wins where it sent both, and a reply with neither is an error.
pub proof fn replies_go_on_as_they_are(url: Seq<char>, result: Option<Json>, error: Option<RpcError>)
    ensures
        ({
            let r = reply_view(url, ProxyReply::Envelope(ProxiedResponse { result, error }));
            &&& error matches Some(e) ==> r == Err::<JsonView, ErrorView>(e@)
            &&& error is None ==> (result matches Some(v) ==> r == Ok::<JsonView, ErrorView>(v@))
            &&& error is None && result is None ==> (r matches Err(e) && e.code == -32000
                && e.data == Some(
                JsonView::Text("copilot returned envelope with neither result nor error"@),
            ))
        }),
{
}

/// Without a reply that can be read the client is told that the service is
/// offline, and what is known of why.
pub proof fn missing_replies_tell_why(
    url: Seq<char>,
    is_timeout: bool,
    is_connect: bool,
    is_request: bool,
    error: String,
)
    ensures
        reply_view(url, ProxyReply::Disabled) matches Err(e) && e.code == -32000 && e.data == Some(
            JsonView::Text("copilot proxy disabled"@),
        ),
        reply_view(url, ProxyReply::BadStatus(error)) matches Err(e) && e.code == -32000 && e.data
            == Some(JsonView::Text("copilot returned HTTP "@ + error@)),
        reply_view(url, ProxyReply::Unreadable(error)) matches Err(e) && e.code == -32000 && e.data
            == Some(JsonView::Text("copilot returned invalid JSON-RPC: "@ + error@)),
        ({
            let r = reply_view(
                url,
                ProxyReply::Unreachable { is_timeout, is_connect, is_request, error },
            );
            &&& r matches Err(e)
            &&& e.code == -32000
            &&& e.data matches Some(JsonView::Text(t))
            &&& t == "copilot unavailable ("@ + failure_kind(is_timeout, is_connect, is_request)
                + ") at "@ + url + ": "@ + error@
            &&& occurs_in(url, t)
            &&& occurs_in(error@, t)
            &&& occurs_in(failure_kind(is_timeout, is_connect, is_request), t)
        }),
{
    let kind = failure_kind(is_timeout, is_connect, is_request);
    let a = "copilot unavailable ("@;
    let b = ") at "@;
    let c = ": "@;
    let none = Seq::<char>::empty();
    let text = a + kind + b + url + c + error@;
    pieces_occur(a, kind, b + url + c + error@, none);
    assert(a + kind + (b + url + c + error@) =~= text);
    pieces_occur(a + kind + b, url, c + error@, none);
    assert(a + kind + b + url + (c + error@) =~= text);
    pieces_occur(a + kind + b + url + c, error@, none, none);
    assert(a + kind + b + url + c + error@ + none =~= text);
}

/// The view of a call's result shows the value or the error.
pub proof fn call_views_show_the_result(v: Json, e: RpcError)
    ensures
        call_view(Ok(v)) == Ok::<JsonView, ErrorView>(v@),
        call_view(Err(e)) == Err::<JsonView, ErrorView>(e@),
{
}

} // verus!
