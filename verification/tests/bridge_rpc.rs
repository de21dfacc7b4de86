use crossbeam::channel;
use hypehouse_engine::audio::clock::ClockSource;
use hypehouse_engine::bridge::auth::AuthConfig;
use hypehouse_engine::bridge::dispatch::{
    auth_hello_success_result, default_limit, dispatch, dispatch_auth_hello, dispatch_with_auth,
    dispatch_with_auth_async, event_log_params, finish_health, finish_library, finish_replay,
    finish_submit, finish_value, list_effects_result, submitted_event, Dispatch, EventLogParams,
    ReplayOutcome, SubmitEventParams,
};
use hypehouse_engine::bridge::engine::{send_result, EngineHandle, LiveReadings};
use hypehouse_engine::bridge::error::{
    RpcError, AUTH_REJECTED, ENGINE_OFFLINE, ENGINE_SINK_UNWIRED, INTERNAL_ERROR, INVALID_PARAMS,
    INVALID_REQUEST, METHOD_NOT_FOUND,
};
use hypehouse_engine::bridge::json::Json;
use hypehouse_engine::bridge::library_proxy::{
    forward_library_call, resolve_copilot_url, ProxyReply,
};
use hypehouse_engine::bridge::method;
use hypehouse_engine::bridge::rpc::{
    audio_alert_notification, decode_error_notification, deck_name, notice_notification,
    state_changed_notification, AuthState, BridgeNotice, RpcId, RpcNotification, RpcRequest,
    RpcResponse, JSONRPC_VERSION,
};
use hypehouse_engine::channel::SendOutcome;
use hypehouse_engine::f32_bits::F32Bits;
use hypehouse_engine::state::{DeckId, EngineState, Event, EventKind, EventSource, TrackRef};
use serde_json::Value;

fn value(j: &Json) -> Value {
    match j {
        Json::Null => Value::Null,
        Json::Bool(b) => Value::from(*b),
        Json::UInt(n) => Value::from(*n),
        Json::Int(n) => Value::from(*n),
        Json::Real(n) => Value::from(f32::from_bits(*n)),
        Json::Double(n) => Value::from(f64::from_bits(*n)),
        Json::Text(s) => Value::from(s.as_str()),
        Json::List(v) => Value::Array(v.iter().map(value).collect()),
        Json::Object(v) => Value::Object(v.iter().map(|(k, x)| (k.clone(), value(x))).collect()),
    }
}

fn obj(fields: Vec<(&str, Json)>) -> Json {
    Json::Object(fields.into_iter().map(|(k, v)| (k.to_string(), v)).collect())
}

fn text(s: &str) -> Json {
    Json::Text(s.to_string())
}

fn engine() -> EngineHandle {
    EngineHandle::new()
}

fn engine_with_sink() -> (EngineHandle, channel::Receiver<Event>) {
    let (tx, rx) = channel::unbounded::<Event>();
    (EngineHandle::with_event_sink(tx), rx)
}

fn submit(method: &str, params: Json, id: i64) -> RpcRequest {
    RpcRequest {
        jsonrpc: JSONRPC_VERSION.into(),
        method: method.into(),
        params: Some(params),
        id: Some(RpcId::Num(id)),
    }
}

fn deck_play(deck: &str) -> Json {
    obj(vec![("DeckPlay", obj(vec![("deck", text(deck))]))])
}

fn wrapped_deck_play(deck: &str) -> Json {
    obj(vec![("kind", deck_play(deck))])
}

fn kind_of(j: &Json) -> Result<EventKind, String> {
    match j.get("DeckPlay").and_then(|d| d.get("deck")).and_then(|d| d.as_text()) {
        Some("A") => Ok(EventKind::DeckPlay { deck: DeckId::A }),
        Some("B") => Ok(EventKind::DeckPlay { deck: DeckId::B }),
        _ => Err("data did not match any variant".to_string()),
    }
}

fn parse_submit(params: &Json) -> Result<SubmitEventParams, String> {
    match params.get("kind") {
        Some(k) => Ok(SubmitEventParams::Wrapped { kind: kind_of(k)?, source: None }),
        None => Ok(SubmitEventParams::Bare(kind_of(params)?)),
    }
}

fn state_json(s: &EngineState) -> Json {
    obj(vec![("deck_a", obj(vec![("playing", Json::Bool(s.deck_a.playing))]))])
}

fn number(j: Option<&Json>) -> Option<u64> {
    j.and_then(|v| v.as_u64())
}

fn answer(e: &mut EngineHandle, auth: &AuthConfig, state: AuthState, d: Dispatch) -> (RpcResponse, AuthState) {
    match d {
        Dispatch::Reply(r) => (r, state),
        Dispatch::Hello { id, params } => {
            let token = match params.get("token").and_then(|t| t.as_text()) {
                Some(t) => Ok(t.to_string()),
                None => Err("missing field `token`".to_string()),
            };
            dispatch_auth_hello(auth, state, id, token, 77)
        }
        Dispatch::SubmitEvent { id, params } => {
            (finish_submit(e, id, parse_submit(&params), 0), state)
        }
        Dispatch::Snapshot { id } => (finish_value(id, Ok(state_json(&e.snapshot()))), state),
        Dispatch::EventLog { id, query } => {
            let parsed = query.map(|q| {
                Ok(EventLogParams {
                    since: number(q.get("since")).unwrap_or(0),
                    limit: number(q.get("limit")).map(|n| n as u32).unwrap_or(default_limit()),
                })
            });
            match event_log_params(id, parsed) {
                Err(r) => (r, state),
                Ok((id, p)) => {
                    let events = e
                        .event_log(p.since, p.limit)
                        .iter()
                        .map(|ev| obj(vec![("id", Json::UInt(ev.id))]))
                        .collect();
                    (finish_value(id, Ok(Json::List(events))), state)
                }
            }
        }
        Dispatch::Health { id } => (finish_health(e, id, 12), state),
        Dispatch::ListSessions { id } => {
            (finish_value(id, Ok(obj(vec![("sessions", Json::List(vec![]))]))), state)
        }
        Dispatch::ReplaySession { id, params } => {
            let outcome = match params.get("session_id").and_then(|t| t.as_text()) {
                Some(_) => ReplayOutcome::Failed("no such session".to_string()),
                None => ReplayOutcome::BadParams("missing field `session_id`".to_string()),
            };
            (finish_replay(id, outcome), state)
        }
        Dispatch::Library { id, .. } => {
            assert!(resolve_copilot_url(Some("")).is_none());
            (finish_library(id, forward_library_call("", ProxyReply::Disabled)), state)
        }
    }
}

fn call(e: &mut EngineHandle, req: RpcRequest) -> RpcResponse {
    let auth = AuthConfig::default();
    answer(e, &auth, AuthState::Authed, dispatch(req)).0
}

fn call_with_auth(
    e: &mut EngineHandle,
    auth: &AuthConfig,
    state: AuthState,
    req: RpcRequest,
) -> (RpcResponse, AuthState) {
    answer(e, auth, state, dispatch_with_auth(state, req))
}

fn call_async(
    e: &mut EngineHandle,
    auth: &AuthConfig,
    state: AuthState,
    req: RpcRequest,
) -> (RpcResponse, AuthState) {
    answer(e, auth, state, dispatch_with_auth_async(state, req))
}

fn playing_a(e: &EngineHandle) -> EngineState {
    let mut s = e.snapshot();
    s.deck_a.playing = true;
    s
}

fn apply_deck_play(e: &mut EngineHandle, live: LiveReadings) -> (u64, BridgeNotice) {
    let next = playing_a(e);
    e.submit_event_kind(EventKind::DeckPlay { deck: DeckId::A }, EventSource::Ui, 5, next, live)
}

fn wire(n: RpcNotification) -> Value {
    value(&n.into_json())
}

#[test]
fn submit_event_accepts_deck_play_when_sink_wired() {
    let (mut e, rx) = engine_with_sink();
    let req = submit(method::SUBMIT_EVENT, wrapped_deck_play("A"), 1);
    let resp = call(&mut e, req);
    assert!(resp.error.is_none(), "unexpected error: {:?}", resp.error);
    let result = value(&resp.result.unwrap());
    assert_eq!(result["accepted"], Value::Bool(true));
    let ev = rx.try_recv().expect("event forwarded onto sink");
    match ev.kind {
        EventKind::DeckPlay { deck: DeckId::A } => {}
        other => panic!("unexpected event kind: {other:?}"),
    }
}

#[test]
fn submit_event_no_sink_returns_engine_sink_unwired() {
    let mut e = engine();
    let resp = call(&mut e, submit(method::SUBMIT_EVENT, wrapped_deck_play("A"), 1));
    let err = resp.error.expect("expected error when sink is unwired");
    assert_eq!(err.code, ENGINE_SINK_UNWIRED);
    assert!(err.message.contains("engine sink not wired"));
}

#[test]
fn submit_event_full_channel_returns_engine_offline() {
    let (tx, _rx) = channel::bounded::<Event>(1);
    let mut e = EngineHandle::with_event_sink(tx);
    let r1 = call(&mut e, submit(method::SUBMIT_EVENT, wrapped_deck_play("A"), 10));
    assert!(r1.error.is_none(), "first submit should succeed: {r1:?}");
    let r2 = call(&mut e, submit(method::SUBMIT_EVENT, wrapped_deck_play("B"), 11));
    let err = r2.error.expect("expected -32000 on full channel");
    assert_eq!(err.code, ENGINE_OFFLINE);
    assert!(err.message.contains("engine offline"));
    assert_eq!(err.data, Some(text("event channel full")));
}

#[test]
fn submit_event_disconnected_channel_returns_engine_offline() {
    let (tx, rx) = channel::unbounded::<Event>();
    drop(rx);
    let mut e = EngineHandle::with_event_sink(tx);
    let resp = call(&mut e, submit(method::SUBMIT_EVENT, wrapped_deck_play("A"), 12));
    let err = resp.error.expect("expected -32000 on disconnected channel");
    assert_eq!(err.code, ENGINE_OFFLINE);
    assert_eq!(err.data, Some(text("event channel disconnected (control loop exited)")));
}

#[test]
fn submit_event_unknown_kind_returns_invalid_params() {
    let (mut e, _rx) = engine_with_sink();
    let params = obj(vec![("kind", obj(vec![("NotAnEvent", obj(vec![]))]))]);
    let resp = call(&mut e, submit(method::SUBMIT_EVENT, params, 2));
    assert_eq!(resp.error.unwrap().code, INVALID_PARAMS);
    assert_eq!(e.last_event_id(), 0);
}

#[test]
fn unknown_method_returns_method_not_found() {
    let mut e = engine();
    let resp = call(&mut e, submit("engine.no_such_method", Json::Null, 3));
    let err = resp.error.unwrap();
    assert_eq!(err.code, METHOD_NOT_FOUND);
    assert_eq!(err.data, Some(text("engine.no_such_method")));
}

#[test]
fn snapshot_round_trips_engine_state() {
    let mut e = engine();
    apply_deck_play(&mut e, LiveReadings::default());
    let resp = call(&mut e, submit(method::SNAPSHOT, Json::Null, 4));
    assert!(resp.error.is_none());
    assert_eq!(value(&resp.result.unwrap())["deck_a"]["playing"], Value::Bool(true));
    assert!(e.snapshot().deck_a.playing);
}

#[test]
fn event_log_returns_slice_after_since() {
    let mut e = engine();
    for _ in 0..5 {
        apply_deck_play(&mut e, LiveReadings::default());
    }
    let query = obj(vec![("since", Json::UInt(2)), ("limit", Json::UInt(10))]);
    let resp = call(&mut e, submit(method::EVENT_LOG, query, 5));
    let events = value(&resp.result.unwrap());
    assert_eq!(events.as_array().unwrap().len(), 3);
    assert_eq!(events[0]["id"], Value::from(3));
}

#[test]
fn invalid_jsonrpc_version_is_rejected() {
    let req = RpcRequest {
        jsonrpc: "1.0".into(),
        method: method::SNAPSHOT.into(),
        params: None,
        id: Some(RpcId::Num(99)),
    };
    let mut e = engine();
    let resp = call(&mut e, req);
    assert_eq!(resp.id, Some(RpcId::Num(99)));
    assert_eq!(resp.error.unwrap().code, INVALID_REQUEST);
}

#[test]
fn state_changed_notification_emitted_on_submit() {
    let mut e = engine();
    let (_, n) = apply_deck_play(&mut e, LiveReadings::default());
    match n {
        BridgeNotice::StateChanged {
            state,
            last_event_id,
            master_limiter_gain_reduction_db,
            clock_source,
        } => {
            assert_eq!(last_event_id, 1);
            assert!(state.deck_a.playing);
            assert!(f32::from_bits(master_limiter_gain_reduction_db.bits).abs() < f32::EPSILON);
            assert_eq!(clock_source, ClockSource::Internal);
        }
        BridgeNotice::AudioAlert { .. } | BridgeNotice::DecodeError { .. } => {
            panic!("expected StateChanged")
        }
    }
}

#[test]
fn publish_decode_error_queues_bridge_notice_with_payload() {
    let e = engine();
    let n = e.publish_decode_error(
        DeckId::A,
        "track-42",
        "file_not_found",
        "io error opening /nope.mp3",
    );
    match n {
        BridgeNotice::DecodeError { deck, track_id, category, error } => {
            assert_eq!(deck, DeckId::A);
            assert_eq!(track_id, "track-42");
            assert_eq!(category, "file_not_found");
            assert!(error.contains("/nope.mp3"));
        }
        other => panic!("expected DecodeError, got {other:?}"),
    }
}

#[test]
fn decode_error_notification_wire_frame_round_trips() {
    let frame = decode_error_notification(DeckId::B, "abc-123", "format_unsupported", "bad header");
    let payload = wire(frame);
    assert_eq!(payload["jsonrpc"], "2.0");
    assert_eq!(payload["method"], "engine.decode_error");
    assert_eq!(payload["params"]["deck"], "B");
    assert_eq!(payload["params"]["track_id"], "abc-123");
    assert_eq!(payload["params"]["category"], "format_unsupported");
    assert_eq!(payload["params"]["error"], "bad header");
}

#[test]
fn publish_decode_error_without_subscribers_does_not_panic() {
    let e = engine();
    let _ = e.publish_decode_error(DeckId::A, "t", "decoder_error", "details");
}

#[test]
fn state_changed_notification_includes_master_limiter_gr_when_wired() {
    let mut e = engine();
    let live = LiveReadings {
        master_limiter_gain_reduction_db: F32Bits { bits: (-3.0f32).to_bits() },
        clock_source: ClockSource::Internal,
    };
    let (_, n) = apply_deck_play(&mut e, live);
    match n {
        BridgeNotice::StateChanged { master_limiter_gain_reduction_db, .. } => {
            let gr = f32::from_bits(master_limiter_gain_reduction_db.bits);
            assert!((gr - (-3.0)).abs() < 0.05, "expected -3 dB GR, got {gr}");
        }
        BridgeNotice::AudioAlert { .. } | BridgeNotice::DecodeError { .. } => {
            panic!("expected StateChanged")
        }
    }
    let frame = state_changed_notification(
        state_json(&EngineState::default()),
        1,
        F32Bits { bits: (-3.0f32).to_bits() },
        ClockSource::Internal,
    );
    let payload = wire(frame);
    let gr_v = payload["params"]["master_limiter_gain_reduction_db"].as_f64().unwrap();
    assert!((gr_v - (-3.0)).abs() < 1e-6);
}

#[test]
fn state_changed_notification_carries_clock_source_when_wired() {
    let mut e = engine();
    let live = LiveReadings { clock_source: ClockSource::MidiIn, ..LiveReadings::default() };
    let (_, n) = apply_deck_play(&mut e, live);
    match n {
        BridgeNotice::StateChanged { clock_source, .. } => {
            assert_eq!(clock_source, ClockSource::MidiIn);
        }
        BridgeNotice::AudioAlert { .. } | BridgeNotice::DecodeError { .. } => {
            panic!("expected StateChanged")
        }
    }
    let zero = F32Bits { bits: 0 };
    let frame = |c| wire(state_changed_notification(state_json(&EngineState::default()), 1, zero, c));
    assert_eq!(frame(ClockSource::MidiIn)["params"]["clock_source"], "midi_in");
    assert_eq!(frame(ClockSource::AbletonLink)["params"]["clock_source"], "ableton_link");
    assert_eq!(frame(ClockSource::Internal)["params"]["clock_source"], "internal");
}

#[test]
fn health_reports_uptime_and_metrics_keys() {
    let e = engine();
    let v = e.health(4);
    for key in ["uptime_ms", "audio_xrun_count", "ws_clients_connected", "ring_pending"] {
        assert!(v.get(key).is_some(), "missing key: {key}");
    }
    assert_eq!(number(v.get("uptime_ms")), Some(4));
}

#[test]
fn health_method_dispatches() {
    let mut e = engine();
    let resp = call(&mut e, submit(method::HEALTH, Json::Null, 7));
    assert!(resp.error.is_none());
    let v = resp.result.unwrap();
    assert!(v.get("uptime_ms").is_some());
}

#[test]
fn submit_event_accepts_bare_kind_shape_with_sink() {
    let (mut e, rx) = engine_with_sink();
    let resp = call(&mut e, submit(method::SUBMIT_EVENT, deck_play("A"), 8));
    assert!(resp.error.is_none(), "{:?}", resp.error);
    let ev = rx.try_recv().expect("event forwarded onto sink");
    match ev.kind {
        EventKind::DeckPlay { deck: DeckId::A } => {}
        other => panic!("unexpected event kind: {other:?}"),
    }
    assert!(matches!(ev.source, EventSource::Ui));
}

#[test]
fn forward_event_returns_engine_offline_on_full_bounded_channel() {
    let (tx, _rx) = channel::bounded::<Event>(1);
    let mut e = EngineHandle::with_event_sink(tx);
    let ev = Event {
        id: 1,
        ts_micros: 0,
        source: EventSource::Ui,
        kind: EventKind::DeckPlay { deck: DeckId::A },
    };
    e.forward_event(ev.clone()).expect("first send fits");
    let err = e.forward_event(ev).expect_err("expected engine_offline");
    assert_eq!(err.code, ENGINE_OFFLINE);
}

#[test]
fn has_event_sink_reflects_constructor_choice() {
    assert!(!EngineHandle::new().has_event_sink());
    let (tx, _rx) = channel::unbounded::<Event>();
    assert!(EngineHandle::with_event_sink(tx).has_event_sink());
}

fn hello(token: &str, id: i64) -> RpcRequest {
    submit(method::AUTH_HELLO, obj(vec![("token", text(token))]), id)
}

#[test]
fn auth_hello_with_valid_token_authenticates() {
    let mut e = engine();
    let auth = AuthConfig::with_token("s3cret");
    let (resp, new_state) =
        call_with_auth(&mut e, &auth, AuthState::PendingAuth, hello("s3cret", 10));
    assert!(resp.error.is_none(), "unexpected error: {:?}", resp.error);
    let result = value(&resp.result.unwrap());
    assert_eq!(result["authed"], Value::Bool(true));
    assert!(result.get("session").is_some());
    assert_eq!(new_state, AuthState::Authed);
}

#[test]
fn auth_hello_with_invalid_token_rejects_and_keeps_pending() {
    let mut e = engine();
    let auth = AuthConfig::with_token("s3cret");
    let (resp, new_state) =
        call_with_auth(&mut e, &auth, AuthState::PendingAuth, hello("wrong", 11));
    let err = resp.error.expect("expected error");
    assert_eq!(err.code, AUTH_REJECTED);
    assert_eq!(new_state, AuthState::PendingAuth);
}

#[test]
fn auth_hello_is_idempotent_when_already_authed() {
    let mut e = engine();
    let auth = AuthConfig::with_token("s3cret");
    let (resp, new_state) = call_with_auth(&mut e, &auth, AuthState::Authed, hello("s3cret", 12));
    assert!(resp.error.is_none(), "{:?}", resp.error);
    assert_eq!(value(&resp.result.unwrap())["authed"], Value::Bool(true));
    assert_eq!(new_state, AuthState::Authed);
}

#[test]
fn pending_auth_gate_blocks_submit_event_with_auth_rejected() {
    let mut e = engine();
    let auth = AuthConfig::with_token("s3cret");
    let req = submit(method::SUBMIT_EVENT, wrapped_deck_play("A"), 13);
    let (resp, new_state) = call_with_auth(&mut e, &auth, AuthState::PendingAuth, req);
    let err = resp.error.expect("expected auth_rejected");
    assert_eq!(err.code, AUTH_REJECTED);
    assert_eq!(new_state, AuthState::PendingAuth);
    assert!(!e.snapshot().deck_a.playing);
}

#[test]
fn authed_state_lets_submit_event_through() {
    let (mut e, rx) = engine_with_sink();
    let auth = AuthConfig::with_token("s3cret");
    let req = submit(method::SUBMIT_EVENT, wrapped_deck_play("A"), 14);
    let (resp, new_state) = call_with_auth(&mut e, &auth, AuthState::Authed, req);
    assert!(resp.error.is_none(), "{:?}", resp.error);
    assert_eq!(value(&resp.result.unwrap())["accepted"], Value::Bool(true));
    assert_eq!(new_state, AuthState::Authed);
    let ev = rx.try_recv().expect("event forwarded onto sink");
    match ev.kind {
        EventKind::DeckPlay { deck: DeckId::A } => {}
        other => panic!("unexpected event kind: {other:?}"),
    }
}

#[test]
fn list_effects_returns_all_four_built_in_effects() {
    let mut e = engine();
    let resp = call(&mut e, submit(method::LIST_EFFECTS, Json::Null, 30));
    assert!(resp.error.is_none(), "unexpected error: {:?}", resp.error);
    let result = value(&resp.result.expect("list_effects must return a result"));
    let effects = result
        .get("effects")
        .and_then(Value::as_array)
        .expect("`effects` array must be present in result");
    assert_eq!(
        effects.len(),
        4,
        "expected 4 effects (filter, echo, reverb, gate), got {}",
        effects.len()
    );

    let filter = &effects[0];
    assert_eq!(filter["id"], Value::from(1));
    assert_eq!(filter["name"], Value::from("filter"));
    let filter_params = filter["params"].as_array().expect("filter.params must be an array");
    assert_eq!(filter_params.len(), 3);
    assert_eq!(filter_params[0]["name"], Value::from("cutoff_hz"));
    assert_eq!(filter_params[0]["min"], Value::from(20.0));
    assert_eq!(filter_params[0]["max"], Value::from(20_000.0));
    assert_eq!(filter_params[0]["default"], Value::from(500.0));
    assert_eq!(filter_params[1]["name"], Value::from("resonance"));
    assert_eq!(filter_params[2]["name"], Value::from("mode"));

    let echo = &effects[1];
    assert_eq!(echo["id"], Value::from(2));
    assert_eq!(echo["name"], Value::from("echo"));
    let echo_params = echo["params"].as_array().unwrap();
    assert_eq!(echo_params.len(), 3);
    assert_eq!(echo_params[0]["name"], Value::from("time_ms"));
    assert_eq!(echo_params[1]["name"], Value::from("feedback"));
    assert_eq!(echo_params[2]["name"], Value::from("tone"));

    let reverb = &effects[2];
    assert_eq!(reverb["id"], Value::from(3));
    assert_eq!(reverb["name"], Value::from("reverb"));
    let reverb_params = reverb["params"].as_array().unwrap();
    assert_eq!(reverb_params.len(), 3);
    assert_eq!(reverb_params[0]["name"], Value::from("room_size"));
    assert_eq!(reverb_params[1]["name"], Value::from("damping"));
    assert_eq!(reverb_params[2]["name"], Value::from("width"));

    let gate = &effects[3];
    assert_eq!(gate["id"], Value::from(4));
    assert_eq!(gate["name"], Value::from("gate"));
    let gate_params = gate["params"].as_array().unwrap();
    assert_eq!(gate_params.len(), 2);
    assert_eq!(gate_params[0]["name"], Value::from("period_div"));
    assert_eq!(gate_params[1]["name"], Value::from("duty"));
}

#[test]
fn list_effects_is_callable_without_event_sink() {
    let mut e = engine();
    let resp = call(&mut e, submit(method::LIST_EFFECTS, Json::Null, 31));
    assert!(resp.error.is_none(), "unexpected error: {:?}", resp.error);
    assert_eq!(resp.result, Some(list_effects_result()));
}

#[test]
fn auth_hello_missing_params_is_invalid_params() {
    let mut e = engine();
    let auth = AuthConfig::with_token("s3cret");
    let req = RpcRequest {
        jsonrpc: JSONRPC_VERSION.into(),
        method: method::AUTH_HELLO.into(),
        params: None,
        id: Some(RpcId::Num(15)),
    };
    let (resp, new_state) = call_with_auth(&mut e, &auth, AuthState::PendingAuth, req);
    assert_eq!(resp.error.unwrap().code, INVALID_PARAMS);
    assert_eq!(new_state, AuthState::PendingAuth);
}

#[test]
fn replay_session_rpc_rejects_missing_session_id_param() {
    let mut e = engine();
    let req = RpcRequest {
        jsonrpc: JSONRPC_VERSION.into(),
        method: method::REPLAY_SESSION.into(),
        params: None,
        id: Some(RpcId::Num(43)),
    };
    let resp = call(&mut e, req);
    assert_eq!(resp.error.unwrap().code, INVALID_PARAMS);
    let resp = call(&mut e, submit(method::REPLAY_SESSION, obj(vec![]), 44));
    assert_eq!(resp.error.unwrap().code, INVALID_PARAMS);
}

#[test]
fn session_lists_are_answered_as_they_are() {
    let mut e = engine();
    let resp = call(&mut e, submit(method::LIST_SESSIONS, Json::Null, 40));
    assert!(resp.error.is_none(), "unexpected error: {:?}", resp.error);
    let result = resp.result.expect("must have result");
    let sessions = result.get("sessions").and_then(|v| v.as_list()).expect("sessions array");
    assert!(sessions.is_empty(), "expected empty list, got {sessions:?}");
}

#[test]
fn dispatch_async_routes_library_methods_to_proxy() {
    let mut e = engine();
    let auth = AuthConfig::with_token("s3cret");
    let req = submit("library.list_tracks", obj(vec![("limit", Json::UInt(100))]), 50);
    let (resp, new_state) = call_async(&mut e, &auth, AuthState::Authed, req);
    assert_eq!(new_state, AuthState::Authed);
    let err = resp.error.expect("proxy disabled must error");
    assert_eq!(err.code, ENGINE_OFFLINE);
}

#[test]
fn dispatch_async_passes_non_library_methods_to_local_engine() {
    let (mut e, rx) = engine_with_sink();
    let auth = AuthConfig::with_token("s3cret");
    let req = submit(method::SUBMIT_EVENT, wrapped_deck_play("A"), 51);
    let (resp, new_state) = call_async(&mut e, &auth, AuthState::Authed, req);
    assert_eq!(new_state, AuthState::Authed);
    assert!(resp.error.is_none(), "unexpected error: {:?}", resp.error);
    assert_eq!(value(&resp.result.unwrap())["accepted"], Value::Bool(true));
    let ev = rx.try_recv().expect("event forwarded onto local sink");
    match ev.kind {
        EventKind::DeckPlay { deck: DeckId::A } => {}
        other => panic!("unexpected event kind: {other:?}"),
    }
}

#[test]
fn dispatch_async_enforces_auth_gate_before_proxy_hop() {
    let mut e = engine();
    let auth = AuthConfig::with_token("s3cret");
    let req = submit("library.list_tracks", obj(vec![]), 52);
    let (resp, new_state) = call_async(&mut e, &auth, AuthState::PendingAuth, req);
    let err = resp.error.expect("expected auth_rejected");
    assert_eq!(err.code, AUTH_REJECTED);
    assert_eq!(new_state, AuthState::PendingAuth);
}

#[test]
fn dispatch_async_routes_all_library_methods_uniformly() {
    let mut e = engine();
    let auth = AuthConfig::with_token("s3cret");
    for (method_name, params) in [
        ("library.list_tracks", obj(vec![])),
        ("library.search_tracks", obj(vec![("query", text(""))])),
        ("library.add_track", obj(vec![("path", text("/x"))])),
        ("library.add_track_from_directory", obj(vec![("path", text("/x"))])),
        (
            "library.set_hot_cues",
            obj(vec![
                ("track_id", text("x")),
                ("hot_cues", Json::List((0..8).map(|_| Json::Null).collect())),
            ]),
        ),
        ("library.get_waveform", obj(vec![("track_id", text("x"))])),
    ] {
        let req = submit(method_name, params, 60);
        let (resp, _new_state) = call_async(&mut e, &auth, AuthState::Authed, req);
        let err = match resp.error {
            Some(err) => err,
            None => panic!("expected error for {method_name}"),
        };
        assert_eq!(
            err.code, ENGINE_OFFLINE,
            "method {method_name} did not route to proxy (got code {})",
            err.code
        );
    }
}

#[test]
fn library_requests_keep_method_and_params() {
    let req = submit("library.x", Json::UInt(3), 1);
    match dispatch_with_auth_async(AuthState::Authed, req) {
        Dispatch::Library { id, method, params } => {
            assert_eq!(id, Some(RpcId::Num(1)));
            assert_eq!(method, "library.x");
            assert_eq!(params, Json::UInt(3));
        }
        other => panic!("expected Library, got {other:?}"),
    }
    let mut bare = submit("library.x", Json::Null, 2);
    bare.params = None;
    match dispatch_with_auth_async(AuthState::Authed, bare) {
        Dispatch::Library { params, .. } => assert_eq!(params, Json::Null),
        other => panic!("expected Library, got {other:?}"),
    }
    // Without the remote hop the method is unknown.
    match dispatch_with_auth(AuthState::Authed, submit("library.x", Json::Null, 3)) {
        Dispatch::Reply(r) => assert_eq!(r.error.unwrap().code, METHOD_NOT_FOUND),
        other => panic!("expected Reply, got {other:?}"),
    }
}

#[test]
fn plain_dispatch_knows_no_hello() {
    match dispatch(hello("t", 1)) {
        Dispatch::Reply(r) => assert_eq!(r.error.unwrap().code, METHOD_NOT_FOUND),
        other => panic!("expected Reply, got {other:?}"),
    }
}

#[test]
fn invalid_requests_are_refused_before_anything_else() {
    for state in [AuthState::PendingAuth, AuthState::Authed] {
        let req = RpcRequest {
            jsonrpc: "2.0".into(),
            method: "".into(),
            params: None,
            id: Some(RpcId::Str("q".into())),
        };
        match dispatch_with_auth_async(state, req) {
            Dispatch::Reply(r) => {
                assert_eq!(r.id, Some(RpcId::Str("q".into())));
                let err = r.error.unwrap();
                assert_eq!(err.code, INVALID_REQUEST);
                assert_eq!(err.data, Some(text("jsonrpc must be \"2.0\" and method non-empty")));
            }
            other => panic!("expected Reply, got {other:?}"),
        }
    }
}

#[test]
fn a_wrong_hello_does_not_close_an_open_connection() {
    let auth = AuthConfig::with_token("t");
    let (r, s) = dispatch_auth_hello(&auth, AuthState::Authed, None, Ok("x".into()), 0);
    assert_eq!(r.error.unwrap().code, AUTH_REJECTED);
    assert_eq!(s, AuthState::Authed);
    assert!(s.is_authed());
    let (r, s) =
        dispatch_auth_hello(&auth, AuthState::PendingAuth, None, Err("bad".into()), 0);
    let err = r.error.unwrap();
    assert_eq!(err.code, INVALID_PARAMS);
    assert_eq!(err.data, Some(text("bad")));
    assert!(!s.is_authed());
}

#[test]
fn hello_results_carry_the_session() {
    let r = auth_hello_success_result(1234);
    assert_eq!(number(r.get("session")), Some(1234));
    assert_eq!(r.get("authed"), Some(&Json::Bool(true)));
}

#[test]
fn submissions_get_growing_ids_and_their_source() {
    let (mut e, rx) = engine_with_sink();
    let parsed = SubmitEventParams::Wrapped {
        kind: EventKind::DeckPause { deck: DeckId::B },
        source: Some(EventSource::Copilot),
    };
    let r = finish_submit(&mut e, Some(RpcId::Num(1)), Ok(parsed), 42);
    assert!(r.error.is_none());
    let bare = SubmitEventParams::Bare(EventKind::SessionStart);
    let r = finish_submit(&mut e, Some(RpcId::Num(2)), Ok(bare), 43);
    assert!(r.error.is_none());
    let first = rx.try_recv().unwrap();
    assert_eq!((first.id, first.ts_micros), (1, 42));
    assert!(matches!(first.source, EventSource::Copilot));
    assert!(matches!(first.kind, EventKind::DeckPause { deck: DeckId::B }));
    let second = rx.try_recv().unwrap();
    assert_eq!((second.id, second.ts_micros), (2, 43));
    assert!(matches!(second.source, EventSource::Ui));
    assert_eq!(e.last_event_id(), 2);
    assert_eq!(e.event_log(0, u32::MAX).len(), 2);
    assert_eq!(e.event_log(1, 10)[0].ts_micros, 43);
    let third = submitted_event(&e, SubmitEventParams::Bare(EventKind::SessionEnd), 44);
    assert_eq!((third.id, third.ts_micros), (3, 44));
    assert_eq!(e.next_event_id(), 3);
    assert!(e.has_ids_left());
}

#[test]
fn refused_submissions_use_no_id_and_are_not_logged() {
    let (tx, rx) = channel::bounded::<Event>(1);
    let mut e = EngineHandle::with_event_sink(tx);
    let event = || Ok(SubmitEventParams::Bare(EventKind::SessionStart));
    assert!(finish_submit(&mut e, None, event(), 1).error.is_none());
    assert_eq!(finish_submit(&mut e, None, event(), 2).error.unwrap().code, ENGINE_OFFLINE);
    assert_eq!(e.last_event_id(), 1);
    assert_eq!(e.event_log(0, 10).len(), 1);
    assert_eq!(rx.try_recv().unwrap().id, 1);
    assert!(finish_submit(&mut e, None, event(), 3).error.is_none());
    let second = rx.try_recv().unwrap();
    assert_eq!((second.id, second.ts_micros), (2, 3));
    assert_eq!(e.last_event_id(), e.event_log(0, u32::MAX).len() as u64);
    let mut bare = EngineHandle::new();
    assert!(finish_submit(&mut bare, None, event(), 1).error.is_some());
    assert_eq!(bare.last_event_id(), 0);
}

#[test]
fn logged_loads_are_whole() {
    let (mut e, rx) = engine_with_sink();
    let kind = EventKind::DeckLoad {
        deck: DeckId::B,
        track: TrackRef { id: "t".into(), path: "/t.mp3".into() },
        bpm: F32Bits { bits: 1 },
        beat_grid_anchor_ms: 5,
        downbeats_ms: vec![10, 20],
        hot_cues: [None, Some(3), None, None, None, None, None, None],
        track_gain_db: F32Bits { bits: 2 },
    };
    let parsed = SubmitEventParams::Wrapped { kind, source: None };
    assert!(finish_submit(&mut e, None, Ok(parsed), 7).error.is_none());
    let sent = rx.try_recv().unwrap();
    let logged = &e.event_log(0, 1)[0];
    assert_eq!(format!("{sent:?}"), format!("{logged:?}"));
    assert_eq!(format!("{:?}", logged.clone()), format!("{logged:?}"));
}

#[test]
fn the_log_gives_back_what_was_submitted() {
    let mut e = engine();
    for i in 1..=4u64 {
        let (id, _) = apply_deck_play(&mut e, LiveReadings::default());
        assert_eq!(id, i);
        let tail = e.event_log(id - 1, 10);
        assert_eq!(tail.len(), 1);
        assert_eq!(tail[0].id, id);
        assert_eq!(tail[0].ts_micros, 5);
    }
    let ids: Vec<u64> = e.event_log(0, 3).iter().map(|x| x.id).collect();
    assert_eq!(ids, vec![1, 2, 3]);
    assert!(e.event_log(0, 0).is_empty());
    assert!(e.event_log(4, 10).is_empty());
}

#[test]
fn event_log_defaults_and_complaints() {
    assert_eq!(default_limit(), 1024);
    match event_log_params(Some(RpcId::Num(1)), None) {
        Ok((id, p)) => {
            assert_eq!(id, Some(RpcId::Num(1)));
            assert_eq!(p, EventLogParams { since: 0, limit: 1024 });
        }
        Err(r) => panic!("unexpected refusal {r:?}"),
    }
    match event_log_params(None, Some(Err("nope".into()))) {
        Ok(_) => panic!("expected a refusal"),
        Err(r) => assert_eq!(r.error.unwrap().code, INVALID_PARAMS),
    }
}

#[test]
fn failed_values_are_internal_errors() {
    let r = finish_value(Some(RpcId::Num(1)), Err("disk".into()));
    let err = r.error.unwrap();
    assert_eq!(err.code, INTERNAL_ERROR);
    assert_eq!(err.data, Some(text("disk")));
}

#[test]
fn replays_have_an_answer_for_every_outcome() {
    let code = |o| finish_replay(None, o).error.map(|e| e.code);
    assert_eq!(code(ReplayOutcome::BadParams("x".into())), Some(INVALID_PARAMS));
    assert_eq!(code(ReplayOutcome::Failed("x".into())), Some(INVALID_PARAMS));
    assert_eq!(code(ReplayOutcome::Unwritable("x".into())), Some(INTERNAL_ERROR));
    let r = finish_replay(None, ReplayOutcome::Replayed(Json::UInt(1)));
    assert_eq!(r.result, Some(Json::UInt(1)));
}

#[test]
fn outcomes_of_a_send_have_their_errors() {
    assert!(send_result(SendOutcome::Accepted).is_ok());
    assert_eq!(send_result(SendOutcome::Full), Err(RpcError::engine_offline("event channel full")));
    assert_eq!(
        send_result(SendOutcome::Disconnected),
        Err(RpcError::engine_offline("event channel disconnected (control loop exited)"))
    );
}

#[test]
fn responses_on_the_wire_carry_one_of_result_and_error() {
    let ok = value(&RpcResponse::ok(Some(RpcId::Str("a".into())), Json::Bool(true)).into_json());
    assert_eq!(ok["jsonrpc"], "2.0");
    assert_eq!(ok["id"], "a");
    assert_eq!(ok["result"], Value::Bool(true));
    assert!(ok.get("error").is_none());
    let err = value(&RpcResponse::err(None, RpcError::internal("x")).into_json());
    assert!(err.get("result").is_none());
    assert_eq!(err["error"]["code"], Value::from(-32603));
    assert_eq!(err["id"], Value::Null);
}

#[test]
fn alerts_and_notices_have_their_frames() {
    let e = engine();
    let n = e.publish_audio_alert("xrun", "late");
    let frame = wire(notice_notification(&n, Json::Null));
    assert_eq!(frame["method"], "engine.audio_alert");
    assert_eq!(frame["params"]["kind"], "xrun");
    assert_eq!(frame["params"]["details"], "late");
    assert_eq!(wire(audio_alert_notification("xrun", "late")), frame);
    let n = e.publish_decode_error(DeckId::A, "t", "c", "x");
    assert_eq!(wire(notice_notification(&n, Json::Null))["params"]["deck"], "A");
    assert_eq!(deck_name(DeckId::B), "B");
    let mut e = engine();
    let (_, n) = apply_deck_play(&mut e, LiveReadings::default());
    let frame = wire(notice_notification(&n, Json::UInt(9)));
    assert_eq!(frame["method"], "engine.state_changed");
    assert_eq!(frame["params"]["state"], Value::from(9));
    assert_eq!(frame["params"]["last_event_id"], Value::from(1));
}

#[test]
fn clients_are_counted() {
    let mut e = engine();
    let mut m = *e.metrics();
    m.client_connected();
    m.client_connected();
    m.client_disconnected();
    e.set_metrics(m);
    assert_eq!(number(e.health(0).get("ws_clients_connected")), Some(1));
    m.client_disconnected();
    m.client_disconnected();
    assert_eq!(m.ws_clients_connected, 0);
    m.ws_clients_connected = u64::MAX;
    m.client_connected();
    assert_eq!(m.ws_clients_connected, 0);
}
