use otlp_forwarder::benchmark::invoke::benchmark_invocation_payload;
use otlp_forwarder::json::JsonValue;
use otlp_forwarder::startled::invoke::{
    decoded_log_tail, invocation_failure_message, invocation_payload, proxy_request, TraceHeaders,
};

fn field<'a>(v: &'a JsonValue, key: &str) -> Option<&'a JsonValue> {
    match v {
        JsonValue::Object(entries) => entries.iter().find(|(k, _)| k == key).map(|(_, v)| v),
        _ => None,
    }
}

fn text(v: Option<&JsonValue>) -> Option<&str> {
    match v {
        Some(JsonValue::Str(s)) => Some(s.as_str()),
        _ => None,
    }
}

fn headers(tp: Option<&str>, ts: Option<&str>, xray: Option<&str>) -> TraceHeaders {
    TraceHeaders {
        traceparent: tp.map(|s| s.to_string()),
        tracestate: ts.map(|s| s.to_string()),
        xray_trace_id: xray.map(|s| s.to_string()),
    }
}

#[test]
fn no_payload_and_no_trace_context_gives_an_empty_object() {
    let v = invocation_payload(None, &headers(None, Some("s"), None)).ok().unwrap();
    assert!(matches!(&v, JsonValue::Object(e) if e.is_empty()));
}

#[test]
fn the_trace_context_is_merged_into_the_payload_headers() {
    let h = headers(Some("00-abc-01"), Some("k=v"), Some("Root=1-x"));
    let v = invocation_payload(Some(r#"{"a":1,"headers":{"x-keep":"yes","traceparent":"old"}}"#), &h).ok().unwrap();
    let hs = field(&v, "headers").unwrap();
    assert_eq!(text(field(hs, "x-keep")), Some("yes"));
    assert_eq!(text(field(hs, "traceparent")), Some("00-abc-01"));
    assert_eq!(text(field(hs, "tracestate")), Some("k=v"));
    assert_eq!(text(field(hs, "X-Amzn-Trace-Id")), Some("Root=1-x"));
    assert!(matches!(field(&v, "a"), Some(JsonValue::PosInt(1))));
}

#[test]
fn an_x_ray_header_alone_is_a_trace_context() {
    let v = invocation_payload(None, &headers(None, None, Some("Root=1-x"))).ok().unwrap();
    let hs = field(&v, "headers").unwrap();
    assert_eq!(text(field(hs, "X-Amzn-Trace-Id")), Some("Root=1-x"));
    assert!(field(hs, "traceparent").is_none());
}

#[test]
fn headers_that_are_not_an_object_and_non_objects_are_left_alone() {
    let h = headers(Some("00-abc-01"), None, None);
    let v = invocation_payload(Some(r#"{"headers":"plain"}"#), &h).ok().unwrap();
    assert_eq!(text(field(&v, "headers")), Some("plain"));
    let v = invocation_payload(Some("[1,2]"), &h).ok().unwrap();
    assert!(matches!(v, JsonValue::Array(_)));
}

#[test]
fn a_payload_that_is_not_json_is_an_error() {
    assert!(invocation_payload(Some("not json"), &headers(None, None, None)).is_err());
}

#[test]
fn the_batch_runner_replaces_the_headers_with_the_trace_context() {
    let h = headers(Some("00-abc-01"), Some("k=v"), Some("Root=1-x"));
    let v = benchmark_invocation_payload(Some(r#"{"headers":{"x-keep":"yes"}}"#), &h).ok().unwrap();
    let hs = field(&v, "headers").unwrap();
    assert!(field(hs, "x-keep").is_none());
    assert_eq!(text(field(hs, "traceparent")), Some("00-abc-01"));
    assert_eq!(text(field(hs, "tracestate")), Some("k=v"));
    assert!(field(hs, "X-Amzn-Trace-Id").is_none());
    let v = benchmark_invocation_payload(None, &headers(None, Some("k=v"), Some("Root"))).ok().unwrap();
    assert!(matches!(&v, JsonValue::Object(e) if e.is_empty()));
}

#[test]
fn a_proxy_request_names_the_target_and_carries_the_payload() {
    let r = proxy_request("fn-a", JsonValue::Bool(true));
    assert_eq!(text(field(&r, "target")), Some("fn-a"));
    assert!(matches!(field(&r, "payload"), Some(JsonValue::Bool(true))));
}

#[test]
fn the_log_tail_is_base64_decoded_text() {
    assert_eq!(decoded_log_tail("aGVsbG8gbG9ncw==").as_deref(), Some("hello logs"));
    assert!(decoded_log_tail("not base64!").is_none());
    assert!(decoded_log_tail("/w==").is_none());
    assert_eq!(
        invocation_failure_message("Unhandled", "line"),
        "Function invocation failed: Unhandled.\nLogs:\nline"
    );
}
