use hypehouse_engine::bridge::error::{RpcError, ENGINE_OFFLINE};
use hypehouse_engine::bridge::json::Json;
use hypehouse_engine::bridge::library_proxy::{
    copilot_unavailable, forward_library_call, proxied_request, resolve_copilot_url,
    ProxiedResponse, ProxyReply, COPILOT_RPC_TIMEOUT, DEFAULT_COPILOT_URL, ENV_COPILOT_URL,
};

const URL: &str = "http://127.0.0.1:8766/rpc";

fn detail(e: &RpcError) -> &str {
    e.data.as_ref().and_then(|d| d.as_text()).unwrap_or("")
}

#[test]
fn resolve_copilot_url_defaults_when_unset() {
    assert_eq!(resolve_copilot_url(None).as_deref(), Some(DEFAULT_COPILOT_URL));
    assert_eq!(DEFAULT_COPILOT_URL, "http://127.0.0.1:8766/rpc");
    assert_eq!(ENV_COPILOT_URL, "HYPEHOUSE_COPILOT_URL");
    assert_eq!(COPILOT_RPC_TIMEOUT, 5);
}

#[test]
fn resolve_copilot_url_returns_none_when_empty() {
    assert!(resolve_copilot_url(Some("")).is_none());
}

#[test]
fn resolve_copilot_url_honors_override() {
    assert_eq!(
        resolve_copilot_url(Some("http://example.invalid:1234/rpc")).as_deref(),
        Some("http://example.invalid:1234/rpc")
    );
}

#[test]
fn forward_library_call_returns_disabled_when_env_empty() {
    let err = forward_library_call("", ProxyReply::Disabled).expect_err("disabled proxy must fail");
    assert_eq!(err.code, ENGINE_OFFLINE);
    assert!(err.message.contains("engine offline"), "msg = {}", err.message);
    let data = detail(&err);
    assert!(data.contains("disabled"), "expected 'disabled' in data: {data}");
}

#[test]
fn library_list_tracks_forwards_to_copilot() {
    let body = proxied_request(
        "library.list_tracks",
        Json::Object(vec![("limit".into(), Json::UInt(100))]),
    );
    assert_eq!(body.get("jsonrpc").and_then(|v| v.as_text()), Some("2.0"));
    assert_eq!(body.get("method").and_then(|v| v.as_text()), Some("library.list_tracks"));
    assert_eq!(body.get("id").and_then(|v| v.as_u64()), Some(1));
    assert_eq!(
        body.get("params").and_then(|p| p.get("limit")).and_then(|v| v.as_u64()),
        Some(100)
    );
    let result = Json::Object(vec![
        (
            "tracks".into(),
            Json::List(vec![Json::Object(vec![("id".into(), Json::Text("alpha".into()))])]),
        ),
        ("total".into(), Json::UInt(1)),
    ]);
    let reply = ProxyReply::Envelope(ProxiedResponse { result: Some(result), error: None });
    let result = forward_library_call(URL, reply).expect("mock copilot should respond");
    assert_eq!(result.get("total").and_then(|v| v.as_u64()), Some(1));
    let tracks = result.get("tracks").and_then(|v| v.as_list()).expect("tracks array");
    assert_eq!(tracks.len(), 1);
    assert_eq!(tracks[0].get("id").and_then(|v| v.as_text()), Some("alpha"));
}

fn unreachable(is_timeout: bool, is_connect: bool, is_request: bool) -> ProxyReply {
    ProxyReply::Unreachable { is_timeout, is_connect, is_request, error: "e".into() }
}

#[test]
fn library_unreachable_returns_engine_offline() {
    let err = forward_library_call(URL, unreachable(false, true, true))
        .expect_err("unreachable copilot must error");
    assert_eq!(err.code, ENGINE_OFFLINE);
    assert_eq!(
        detail(&err),
        "copilot unavailable (connect_refused) at http://127.0.0.1:8766/rpc: e"
    );
}

#[test]
fn hung_servers_are_timeouts() {
    let err =
        forward_library_call(URL, unreachable(true, true, true)).expect_err("timeout must error");
    assert_eq!(err.code, ENGINE_OFFLINE);
    let data = detail(&err);
    assert!(
        data.contains("timeout") || data.contains("unavailable"),
        "expected timeout marker in data: {data}"
    );
    assert!(data.contains("(timeout)"));
}

#[test]
fn library_upstream_error_passthrough() {
    let upstream = RpcError {
        code: -32602,
        message: "Invalid params".into(),
        data: Some(Json::Text("track_id must be non-empty".into())),
    };
    let reply = ProxyReply::Envelope(ProxiedResponse {
        result: Some(Json::Null),
        error: Some(upstream),
    });
    let err = forward_library_call(URL, reply).expect_err("upstream error envelope must surface");
    assert_eq!(err.code, -32602);
    assert!(err.message.contains("Invalid params"));
    assert_eq!(detail(&err), "track_id must be non-empty");
}

#[test]
fn library_http_5xx_returns_engine_offline() {
    let err = forward_library_call(URL, ProxyReply::BadStatus("503 Service Unavailable".into()))
        .expect_err("5xx must error");
    assert_eq!(err.code, ENGINE_OFFLINE);
    assert!(detail(&err).contains("503"), "expected status in data: {err:?}");
    assert_eq!(detail(&err), "copilot returned HTTP 503 Service Unavailable");
}

#[test]
fn unreadable_and_empty_replies_are_offline_errors() {
    let err = forward_library_call(URL, ProxyReply::Unreadable("EOF".into())).unwrap_err();
    assert_eq!(err.code, ENGINE_OFFLINE);
    assert_eq!(detail(&err), "copilot returned invalid JSON-RPC: EOF");
    let empty = ProxyReply::Envelope(ProxiedResponse { result: None, error: None });
    let err = forward_library_call(URL, empty).unwrap_err();
    assert_eq!(err.code, ENGINE_OFFLINE);
    assert_eq!(detail(&err), "copilot returned envelope with neither result nor error");
}

#[test]
fn failures_without_a_reply_have_their_class() {
    let class = |t, c, r| detail(&copilot_unavailable("u", t, c, r, "e")).to_string();
    assert_eq!(class(true, false, false), "copilot unavailable (timeout) at u: e");
    assert_eq!(class(false, true, false), "copilot unavailable (connect_refused) at u: e");
    assert_eq!(class(false, false, true), "copilot unavailable (request_failed) at u: e");
    assert_eq!(class(false, false, false), "copilot unavailable (io_error) at u: e");
}
