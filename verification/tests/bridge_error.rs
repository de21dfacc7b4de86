use hypehouse_engine::bridge::error::{
    RpcError, AUTH_REJECTED, ENGINE_OFFLINE, ENGINE_SINK_UNWIRED, INTERNAL_ERROR, INVALID_PARAMS,
    INVALID_REQUEST, METHOD_NOT_FOUND, PARSE_ERROR, RATE_LIMITED,
};
use hypehouse_engine::bridge::json::Json;
use serde_json::Value;

fn value(j: &Json) -> Value {
    match j {
        Json::Null => Value::Null,
        Json::Bool(b) => Value::from(*b),
        Json::UInt(n) => Value::from(*n),
        Json::Int(n) => Value::from(*n),
        Json::Real(n) => Value::from(f32::from_bits(*n)),
        Json::Double(n) => Value::from(f64::from_bits(*n)),
        Json::Text(s) => Value::from(s.as_str()),
        Json::List(v) => Value::Array(v.iter().map(value).collect()),
        Json::Object(v) => Value::Object(v.iter().map(|(k, x)| (k.clone(), value(x))).collect()),
    }
}

fn wire(e: RpcError) -> String {
    serde_json::to_string(&value(&e.into_json())).unwrap()
}

#[test]
fn error_codes_match_spec() {
    assert_eq!(PARSE_ERROR, -32700);
    assert_eq!(INVALID_REQUEST, -32600);
    assert_eq!(METHOD_NOT_FOUND, -32601);
    assert_eq!(INVALID_PARAMS, -32602);
    assert_eq!(INTERNAL_ERROR, -32603);
}

#[test]
fn engine_app_codes_in_reserved_range() {
    assert_eq!(ENGINE_OFFLINE, -32000);
    assert_eq!(ENGINE_SINK_UNWIRED, -32001);
    assert_eq!(AUTH_REJECTED, -32002);
    assert_eq!(RATE_LIMITED, -32003);
}

#[test]
fn rate_limited_carries_structured_retry_after_ms() {
    let e = RpcError::rate_limited(42);
    assert_eq!(e.code, RATE_LIMITED);
    assert_eq!(e.message, "Rate limited");
    let data = e.data.as_ref().expect("rate_limited carries data");
    assert_eq!(
        data.get("retry_after_ms").and_then(|v| v.as_u64()),
        Some(42),
        "retry_after_ms field must serialize as a u64 number"
    );
    let s = wire(e);
    assert!(s.contains("-32003"));
    assert!(s.contains("retry_after_ms"));
}

#[test]
fn engine_offline_serializes_with_code_and_message() {
    let s = wire(RpcError::engine_offline("channel full"));
    assert!(s.contains("-32000"));
    assert!(s.contains("engine offline"));
    assert!(s.contains("channel full"));
}

#[test]
fn engine_sink_unwired_serializes_with_code_and_message() {
    let s = wire(RpcError::engine_sink_unwired("test handle"));
    assert!(s.contains("-32001"));
    assert!(s.contains("engine sink not wired"));
}

#[test]
fn invalid_request_serializes_with_data() {
    let s = wire(RpcError::invalid_request("missing id"));
    assert!(s.contains("-32600"));
    assert!(s.contains("Invalid Request"));
    assert!(s.contains("missing id"));
}

#[test]
fn error_without_data_omits_data_field() {
    let s = wire(RpcError::new(INTERNAL_ERROR, "boom"));
    assert!(!s.contains("\"data\""));
}

#[test]
fn every_constructor_has_its_code_and_message() {
    let all = [
        (RpcError::parse_error("d"), -32700, "Parse error"),
        (RpcError::invalid_request("d"), -32600, "Invalid Request"),
        (RpcError::method_not_found("d"), -32601, "Method not found"),
        (RpcError::invalid_params("d"), -32602, "Invalid params"),
        (RpcError::internal("d"), -32603, "Internal error"),
        (RpcError::auth_rejected("d"), -32002, "Authentication rejected"),
        (RpcError::engine_offline("d"), -32000, "engine offline"),
        (RpcError::engine_sink_unwired("d"), -32001, "engine sink not wired"),
    ];
    for (e, code, message) in all {
        assert_eq!(e.code, code);
        assert_eq!(e.message, message);
        assert_eq!(e.data, Some(Json::Text("d".to_string())));
    }
}

#[test]
fn json_lookups_find_the_first_field() {
    let j = Json::Object(vec![
        ("a".to_string(), Json::UInt(1)),
        ("b".to_string(), Json::List(vec![Json::Null, Json::Bool(true)])),
        ("a".to_string(), Json::UInt(2)),
        ("t".to_string(), Json::Text("x".to_string())),
    ]);
    assert_eq!(j.get("a").and_then(|v| v.as_u64()), Some(1));
    assert_eq!(j.get("b").and_then(|v| v.as_list()).map(|v| v.len()), Some(2));
    assert_eq!(j.get("t").and_then(|v| v.as_text()), Some("x"));
    assert!(j.get("c").is_none());
    assert!(Json::Null.get("a").is_none());
    assert_eq!(Json::Int(3).as_u64(), None);
    assert_eq!(Json::Null.as_text(), None);
    assert!(Json::Null.as_list().is_none());
}
