use hypehouse_engine::bridge::auth::AuthConfig;
use hypehouse_engine::bridge::connection::{
    client_step, handle_request_frame, handshake, notice_step, port_from, read_timeout, BindAddr,
    BridgeConfig, ClientAction, ClientEvent, Handshake, NoticeAction, NoticeEvent, DEFAULT_PORT,
    ReadWait, PENDING_AUTH_TIMEOUT,
};
use hypehouse_engine::bridge::dispatch::Dispatch;
use hypehouse_engine::bridge::error::{INVALID_REQUEST, METHOD_NOT_FOUND, RATE_LIMITED};
use hypehouse_engine::bridge::json::Json;
use hypehouse_engine::bridge::method;
use hypehouse_engine::bridge::ratelimit::RateLimiter;
use hypehouse_engine::bridge::rpc::{AuthState, BridgeNotice, RpcId, RpcRequest};

const MS: u64 = 1_000_000;

fn addr(host: &str, port: u16) -> BindAddr {
    BindAddr { host: host.to_string(), port }
}

fn request(method: &str, id: i64) -> Result<RpcRequest, String> {
    Ok(RpcRequest {
        jsonrpc: "2.0".into(),
        method: method.into(),
        params: Some(Json::Null),
        id: Some(RpcId::Num(id)),
    })
}

/// The error code of an answer; `None` where the request is let through.
fn refusal(d: Dispatch) -> Option<i32> {
    match d {
        Dispatch::Reply(r) => r.error.map(|e| e.code),
        _ => None,
    }
}

fn drain(limiter: &mut RateLimiter, now: u64) -> u32 {
    let mut accepted = 0;
    loop {
        let d = handle_request_frame(
            AuthState::Authed,
            limiter,
            now,
            request(method::SUBMIT_EVENT, 1),
        );
        match refusal(d) {
            None => accepted += 1,
            Some(code) => {
                assert_eq!(code, RATE_LIMITED);
                return accepted;
            }
        }
    }
}

#[test]
fn loopback_default_no_auth_required() {
    let cfg = BridgeConfig::resolve_bind_addr(addr("0.0.0.0", 0), AuthConfig::default());
    assert_eq!(cfg.bind_addr.host, "127.0.0.1");
    assert_eq!(cfg.bind_addr.port, 0);
    let cfg = BridgeConfig::resolve_bind_addr(addr("0.0.0.0", 9), AuthConfig::with_token("t"));
    assert_eq!(cfg.bind_addr.host, "0.0.0.0");
    assert_eq!(cfg.bind_addr.port, 9);
}

#[test]
fn environment_values_make_a_config() {
    let cfg = BridgeConfig::from_env(None, None, None);
    assert_eq!(cfg.bind_addr.host, "127.0.0.1");
    assert_eq!(cfg.bind_addr.port, DEFAULT_PORT);
    assert!(!cfg.auth.requires_auth());
    let cfg = BridgeConfig::from_env(Some("9000"), None, Some("t".into()));
    assert_eq!(cfg.bind_addr.port, 9000);
    assert_eq!(cfg.bind_addr.host, "127.0.0.1");
    let cfg = BridgeConfig::from_env(Some("9000"), Some(addr("::", 7)), Some("t".into()));
    assert_eq!((cfg.bind_addr.host.as_str(), cfg.bind_addr.port), ("::", 7));
    let cfg = BridgeConfig::from_env(None, Some(addr("::", 7)), Some("".into()));
    assert_eq!((cfg.bind_addr.host.as_str(), cfg.bind_addr.port), ("127.0.0.1", 7));
}

#[test]
fn ports_are_parsed_or_defaulted() {
    assert_eq!(port_from(Some("65535")), 65535);
    assert_eq!(port_from(Some("+80")), 80);
    assert_eq!(port_from(Some("65536")), 8765);
    assert_eq!(port_from(Some("x")), 8765);
    assert_eq!(port_from(Some("")), 8765);
    assert_eq!(port_from(None), 8765);
}

#[test]
fn malformed_json_returns_invalid_request() {
    let mut rl = RateLimiter::with_now(0, None);
    let d = handle_request_frame(
        AuthState::Authed,
        &mut rl,
        0,
        Err("key must be a string at line 1 column 2".into()),
    );
    match d {
        Dispatch::Reply(r) => {
            assert!(r.id.is_none());
            let err = r.error.unwrap();
            assert_eq!(err.code, INVALID_REQUEST);
            assert_eq!(
                err.data,
                Some(Json::Text(
                    "malformed JSON-RPC payload: key must be a string at line 1 column 2".into()
                ))
            );
        }
        other => panic!("expected Reply, got {other:?}"),
    }
}

#[test]
fn unknown_method_returns_method_not_found_via_ws() {
    let mut rl = RateLimiter::with_now(0, None);
    match handle_request_frame(AuthState::Authed, &mut rl, 0, request("engine.does_not_exist", 9)) {
        Dispatch::Reply(r) => {
            assert_eq!(r.id, Some(RpcId::Num(9)));
            assert_eq!(r.error.unwrap().code, METHOD_NOT_FOUND);
        }
        other => panic!("expected Reply, got {other:?}"),
    }
}

#[test]
fn header_auth_modes_and_in_band_pending_state() {
    let auth = AuthConfig::with_token("sekret");
    assert_eq!(handshake(&auth, None), Handshake::Accept(AuthState::PendingAuth));
    assert_eq!(handshake(&auth, Some("Bearer WRONG")), Handshake::Unauthorized);
    assert_eq!(handshake(&auth, Some("Bearer sekret")), Handshake::Accept(AuthState::Authed));
    let open = AuthConfig::default();
    assert_eq!(handshake(&open, None), Handshake::Accept(AuthState::Authed));
    assert_eq!(handshake(&open, Some("Bearer WRONG")), Handshake::Accept(AuthState::Authed));
}

#[test]
fn rate_limit_burst_then_denies_with_retry_after_ms() {
    let mut rl = RateLimiter::with_now(0, None);
    let mut accepted = 0u32;
    let mut denied = 0u32;
    let mut first_denied_retry_after: Option<u64> = None;
    const FLOOD: i64 = 2_500;
    for id in 0..FLOOD {
        match handle_request_frame(
            AuthState::Authed,
            &mut rl,
            id as u64 * 1_000,
            request(method::SUBMIT_EVENT, id),
        ) {
            Dispatch::SubmitEvent { id: got, .. } => {
                assert_eq!(got, Some(RpcId::Num(id)));
                accepted += 1;
            }
            Dispatch::Reply(r) => {
                assert_eq!(r.id, Some(RpcId::Num(id)));
                let err = r.error.unwrap();
                assert_eq!(err.code, -32003);
                if first_denied_retry_after.is_none() {
                    first_denied_retry_after =
                        err.data.unwrap().get("retry_after_ms").and_then(|v| v.as_u64());
                }
                denied += 1;
            }
            other => panic!("unexpected step {other:?}"),
        }
    }
    assert!(
        accepted >= 1_000,
        "burst should accept at least the full capacity (1 000), got {accepted}",
    );
    assert!(denied > 0, "flooding {FLOOD} events must trigger ≥1 RATE_LIMITED, got 0");
    let retry = first_denied_retry_after.expect("denied frame must carry retry_after_ms");
    assert!(retry >= 1, "retry_after_ms must be ≥ 1, got {retry}");
    assert!(
        retry <= 5_000,
        "retry_after_ms suspiciously large: {retry} (expected ≤ 5 000 ms)",
    );
}

#[test]
fn rate_limit_regenerates_after_short_wait() {
    let mut rl = RateLimiter::with_now(0, None);
    drain(&mut rl, 0);
    let d = handle_request_frame(
        AuthState::Authed,
        &mut rl,
        250 * MS,
        request(method::SUBMIT_EVENT, 3_000),
    );
    assert!(matches!(d, Dispatch::SubmitEvent { id: Some(RpcId::Num(3_000)), .. }));
}

#[test]
fn rate_limit_does_not_apply_to_other_rpc_methods() {
    let mut rl = RateLimiter::with_now(0, None);
    drain(&mut rl, 0);
    for (id, name) in [
        (6_001, method::SNAPSHOT),
        (6_002, method::HEALTH),
        (6_003, method::LIST_SESSIONS),
    ] {
        let d = handle_request_frame(AuthState::Authed, &mut rl, 0, request(name, id));
        assert_eq!(refusal(d), None, "{name} wrongly rate-limited");
    }
}

#[test]
fn rate_limit_per_connection_isolated_between_clients() {
    let mut rl_a = RateLimiter::with_now(0, None);
    let mut rl_b = RateLimiter::with_now(0, None);
    assert_eq!(drain(&mut rl_a, 0), 1_000);
    let d = handle_request_frame(
        AuthState::Authed,
        &mut rl_b,
        0,
        request(method::SUBMIT_EVENT, 8_000),
    );
    assert_eq!(refusal(d), None, "client B wrongly rate-limited by client A's flood");
}

#[test]
fn pending_submissions_take_no_token() {
    let mut rl = RateLimiter::with_now(0, None);
    for id in 0..2_000 {
        let d = handle_request_frame(
            AuthState::PendingAuth,
            &mut rl,
            0,
            request(method::SUBMIT_EVENT, id),
        );
        assert_eq!(refusal(d), Some(-32002));
    }
    assert_eq!(drain(&mut rl, 0), 1_000);
}

#[test]
fn a_disabled_limit_lets_every_submission_through() {
    let mut rl = RateLimiter::with_now(0, Some("1"));
    for id in 0..3_000 {
        let d = handle_request_frame(
            AuthState::Authed,
            &mut rl,
            0,
            request(method::SUBMIT_EVENT, id),
        );
        assert_eq!(refusal(d), None);
    }
}

#[test]
fn only_pending_connections_time_out() {
    assert_eq!(read_timeout(AuthState::PendingAuth, 0), ReadWait::AtMost(5_000));
    assert_eq!(PENDING_AUTH_TIMEOUT, 5);
    assert_eq!(read_timeout(AuthState::Authed, 60_000), ReadWait::Unlimited);
}

#[test]
fn frames_do_not_prolong_the_time_of_a_pending_connection() {
    assert_eq!(read_timeout(AuthState::PendingAuth, 4_000), ReadWait::AtMost(1_000));
    assert_eq!(read_timeout(AuthState::PendingAuth, 4_999), ReadWait::AtMost(1));
    assert_eq!(read_timeout(AuthState::PendingAuth, 5_000), ReadWait::Over);
    assert_eq!(read_timeout(AuthState::PendingAuth, u64::MAX), ReadWait::Over);
}

#[test]
fn socket_events_have_their_actions() {
    assert!(matches!(
        client_step(ClientEvent::TimedOut),
        ClientAction::Close { code: 1008, reason: "auth.hello timeout" }
    ));
    assert!(matches!(client_step(ClientEvent::Ended), ClientAction::Stop));
    assert!(matches!(client_step(ClientEvent::ReadError), ClientAction::Stop));
    assert!(matches!(client_step(ClientEvent::Close), ClientAction::Stop));
    assert!(matches!(client_step(ClientEvent::Text), ClientAction::HandleText));
    assert!(matches!(client_step(ClientEvent::Pong), ClientAction::Ignore));
    match client_step(ClientEvent::Ping(vec![1, 2])) {
        ClientAction::Pong(p) => assert_eq!(p, vec![1, 2]),
        other => panic!("expected Pong, got {other:?}"),
    }
    match client_step(ClientEvent::Binary) {
        ClientAction::Reply(r) => {
            let err = r.error.unwrap();
            assert_eq!(err.code, INVALID_REQUEST);
            assert_eq!(
                err.data,
                Some(Json::Text("binary frames not supported; send JSON text".into()))
            );
        }
        other => panic!("expected Reply, got {other:?}"),
    }
}

#[test]
fn notice_events_have_their_actions() {
    let n = BridgeNotice::AudioAlert { kind: "k".into(), details: "d".into() };
    match notice_step(NoticeEvent::Notice(n), Json::Null) {
        NoticeAction::Send(m) => {
            assert_eq!(m.method, "engine.audio_alert");
            assert_eq!(m.params.get("kind").and_then(|v| v.as_text()), Some("k"));
        }
        other => panic!("expected Send, got {other:?}"),
    }
    assert!(matches!(notice_step(NoticeEvent::Lagged(3), Json::Null), NoticeAction::Skip));
    assert!(matches!(notice_step(NoticeEvent::Closed, Json::Null), NoticeAction::Stop));
}
