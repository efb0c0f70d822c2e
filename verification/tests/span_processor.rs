use opentelemetry_proto::tonic::collector::trace::v1::ExportTraceServiceRequest;
use opentelemetry_proto::tonic::common::v1::any_value::Value as ProtoValue;
use opentelemetry_proto::tonic::trace::v1::span::SpanKind;
use otlp_forwarder::span_processor::export::{
    convert_span_message, convert_span_to_otlp, convert_span_to_otlp_protobuf, convert_value, map_span_kind, map_status_code,
    span_export_of, ConversionError, OtlpValue,
};
use otlp_forwarder::json::JsonValue;
use prost::Message;

fn s(text: &str) -> JsonValue {
    JsonValue::Str(text.to_string())
}

fn obj(entries: Vec<(&str, JsonValue)>) -> JsonValue {
    JsonValue::Object(entries.into_iter().map(|(k, v)| (k.to_string(), v)).collect())
}

fn field<'a>(v: &'a JsonValue, key: &str) -> &'a JsonValue {
    match v {
        JsonValue::Object(entries) => &entries.iter().find(|(k, _)| k == key).unwrap().1,
        _ => panic!("not an object"),
    }
}

fn first<'a>(v: &'a JsonValue) -> &'a JsonValue {
    match v {
        JsonValue::Array(items) => &items[0],
        _ => panic!("not an array"),
    }
}

fn full_record() -> JsonValue {
    obj(vec![
        ("name", s("test-span")),
        ("traceId", s("0123456789abcdef0123456789abcdef")),
        ("spanId", s("0123456789abcdef")),
        ("parentSpanId", s("fedcba9876543210")),
        ("kind", s("SERVER")),
        ("startTimeUnixNano", JsonValue::PosInt(1619712000000000000)),
        ("endTimeUnixNano", JsonValue::PosInt(1619712001000000000)),
        (
            "attributes",
            obj(vec![
                ("service.name", s("test-service")),
                ("http.method", s("GET")),
                ("http.url", s("https://example.com")),
                ("http.status_code", JsonValue::PosInt(200)),
            ]),
        ),
        ("status", obj(vec![("code", s("OK"))])),
        (
            "resource",
            obj(vec![("attributes", obj(vec![("service.name", s("test-service")), ("service.version", s("1.0.0"))]))]),
        ),
        ("scope", obj(vec![("name", s("test-scope")), ("version", s("1.0.0"))])),
    ])
}

#[test]
fn test_convert_span_to_otlp_protobuf() {
    let result = convert_span_to_otlp_protobuf(full_record());
    assert!(result.is_ok());

    let bytes = result.unwrap();
    let decoded = ExportTraceServiceRequest::decode(bytes.as_slice());
    assert!(decoded.is_ok());

    let request = decoded.unwrap();
    assert_eq!(request.resource_spans.len(), 1);
    assert_eq!(request.resource_spans[0].scope_spans.len(), 1);
    assert_eq!(request.resource_spans[0].scope_spans[0].spans.len(), 1);

    let span = &request.resource_spans[0].scope_spans[0].spans[0];
    assert_eq!(span.name, "test-span");
    assert_eq!(span.kind, SpanKind::Server as i32);
}

#[test]
fn test_convert_span_to_otlp_protobuf_missing_endtime() {
    let span = obj(vec![
        ("name", s("test-span")),
        ("traceId", s("0123456789abcdef0123456789abcdef")),
        ("spanId", s("0123456789abcdef")),
    ]);
    let result = convert_span_to_otlp_protobuf(span);
    assert!(result.is_err());
}

#[test]
fn test_convert_span_to_otlp_protobuf_null_endtime() {
    let span = obj(vec![
        ("name", s("test-span")),
        ("traceId", s("0123456789abcdef0123456789abcdef")),
        ("spanId", s("0123456789abcdef")),
        ("endTimeUnixNano", JsonValue::Null),
    ]);
    let result = convert_span_to_otlp_protobuf(span);
    assert!(result.is_err());
}

#[test]
fn protobuf_conversion_keeps_every_field() {
    let bytes = convert_span_to_otlp_protobuf(full_record()).unwrap();
    let request = ExportTraceServiceRequest::decode(bytes.as_slice()).unwrap();
    let rs = &request.resource_spans[0];
    let resource = rs.resource.as_ref().unwrap();
    assert_eq!(resource.attributes.len(), 2);
    assert_eq!(resource.attributes[0].key, "service.name");
    let scope = rs.scope_spans[0].scope.as_ref().unwrap();
    assert_eq!(scope.name, "test-scope");
    assert_eq!(scope.version, "1.0.0");
    let span = &rs.scope_spans[0].spans[0];
    assert_eq!(span.trace_id, b"0123456789abcdef0123456789abcdef".to_vec());
    assert_eq!(span.span_id, b"0123456789abcdef".to_vec());
    assert_eq!(span.parent_span_id, b"fedcba9876543210".to_vec());
    assert_eq!(span.start_time_unix_nano, 1619712000000000000);
    assert_eq!(span.end_time_unix_nano, 1619712001000000000);
    assert_eq!(span.status.as_ref().unwrap().code, 1);
    assert_eq!(span.attributes.len(), 4);
    let status_code = span.attributes.iter().find(|kv| kv.key == "http.status_code").unwrap();
    assert_eq!(status_code.value.as_ref().unwrap().value, Some(ProtoValue::IntValue(200)));
}

#[test]
fn protobuf_conversion_defaults_for_a_minimal_record() {
    let bytes = convert_span_to_otlp_protobuf(obj(vec![("endTimeUnixNano", JsonValue::PosInt(5))])).unwrap();
    let request = ExportTraceServiceRequest::decode(bytes.as_slice()).unwrap();
    let span = &request.resource_spans[0].scope_spans[0].spans[0];
    assert_eq!(span.name, "UnnamedSpan");
    assert_eq!(span.kind, 0);
    assert_eq!(span.start_time_unix_nano, 0);
    assert!(span.trace_id.is_empty());
    assert!(span.parent_span_id.is_empty());
    assert_eq!(span.status.as_ref().unwrap().code, 0);
}

#[test]
fn records_that_are_not_objects_are_refused() {
    assert!(matches!(convert_span_to_otlp_protobuf(s("span")), Err(ConversionError::NotAnObject)));
    assert!(matches!(
        convert_span_to_otlp_protobuf(obj(vec![("endTimeUnixNano", JsonValue::NegInt(-1))])),
        Err(ConversionError::MissingEndTime)
    ));
    assert_eq!(ConversionError::NotAnObject.message(), "Record is not an object");
    assert!(convert_span_to_otlp(JsonValue::Array(vec![])).is_none());
    assert!(convert_span_to_otlp(obj(vec![("name", s("x"))])).is_none());
}

#[test]
fn status_and_kind_names_are_case_insensitive() {
    assert_eq!(map_status_code("ok"), 1);
    assert_eq!(map_status_code("Error"), 2);
    assert_eq!(map_status_code("unset"), 0);
    assert_eq!(map_span_kind("internal"), 1);
    assert_eq!(map_span_kind("Server"), 2);
    assert_eq!(map_span_kind("CLIENT"), 3);
    assert_eq!(map_span_kind("producer"), 4);
    assert_eq!(map_span_kind("consumer"), 5);
    assert_eq!(map_span_kind("other"), 0);
}

#[test]
fn values_convert_by_kind() {
    assert!(matches!(convert_value(&JsonValue::PosInt(7)), OtlpValue::Int(7)));
    assert!(matches!(convert_value(&JsonValue::NegInt(-7)), OtlpValue::Int(-7)));
    match convert_value(&JsonValue::PosInt(u64::MAX)) {
        OtlpValue::Double(t) => assert_eq!(t, "18446744073709551615"),
        _ => panic!("expected a double"),
    }
    match convert_value(&JsonValue::Float("1.5".to_string())) {
        OtlpValue::Double(t) => assert_eq!(t, "1.5"),
        _ => panic!("expected a double"),
    }
    match convert_value(&JsonValue::Null) {
        OtlpValue::Str(t) => assert_eq!(t, "null"),
        _ => panic!("expected a string"),
    }
    match convert_value(&obj(vec![("a", JsonValue::PosInt(1))])) {
        OtlpValue::Str(t) => assert_eq!(t, "{\"a\":1}"),
        _ => panic!("expected a string"),
    }
    match convert_value(&JsonValue::Array(vec![JsonValue::Bool(true), s("x")])) {
        OtlpValue::Array(items) => {
            assert!(matches!(items[0], OtlpValue::Bool(true)));
            assert!(matches!(&items[1], OtlpValue::Str(t) if t == "x"));
        }
        _ => panic!("expected an array"),
    }
}

#[test]
fn export_span_reads_the_record() {
    let e = span_export_of(&full_record()).ok().unwrap();
    assert_eq!(e.name, "test-span");
    assert_eq!(e.kind, 2);
    assert_eq!(e.status_code, 1);
    assert_eq!(e.parent_span_id, Some("fedcba9876543210".to_string()));
    assert_eq!(e.scope_name, "test-scope");
    assert_eq!(e.attributes.len(), 4);
    assert_eq!(e.resource_attributes.len(), 2);
}

#[test]
fn json_conversion_builds_the_otlp_request() {
    let out = convert_span_to_otlp(full_record()).unwrap();
    let rs = first(field(&out, "resourceSpans"));
    let ss = first(field(rs, "scopeSpans"));
    assert!(matches!(field(field(ss, "scope"), "name"), JsonValue::Str(n) if n == "test-scope"));
    let span = first(field(ss, "spans"));
    assert!(matches!(field(span, "name"), JsonValue::Str(n) if n == "test-span"));
    assert!(matches!(field(span, "traceId"), JsonValue::Str(n) if n == "0123456789abcdef0123456789abcdef"));
    assert!(matches!(field(span, "kind"), JsonValue::PosInt(2)));
    assert!(matches!(field(span, "endTimeUnixNano"), JsonValue::PosInt(1619712001000000000)));
    assert!(matches!(field(field(span, "status"), "code"), JsonValue::PosInt(1)));
    assert!(matches!(field(span, "events"), JsonValue::Array(v) if v.is_empty()));
    match field(span, "attributes") {
        JsonValue::Array(items) => assert_eq!(items.len(), 4),
        _ => panic!("expected attributes"),
    }
    match field(field(rs, "resource"), "attributes") {
        JsonValue::Array(items) => assert_eq!(items.len(), 2),
        _ => panic!("expected resource attributes"),
    }
}

#[test]
fn json_conversion_without_parent_writes_null() {
    let out = convert_span_to_otlp(obj(vec![("endTimeUnixNano", JsonValue::PosInt(1))])).unwrap();
    let span = first(field(first(field(first(field(&out, "resourceSpans")), "scopeSpans")), "spans"));
    assert!(matches!(field(span, "parentSpanId"), JsonValue::Null));
    assert!(matches!(field(span, "name"), JsonValue::Str(n) if n == "UnnamedSpan"));
}

fn span_of(otlp: &JsonValue) -> &JsonValue {
    first(field(first(field(first(field(otlp, "resourceSpans")), "scopeSpans")), "spans"))
}

#[test]
fn a_span_message_converts_to_the_otlp_request() {
    let message = r#"{"name":"test-span","traceId":"test-trace-id","endTimeUnixNano":1234567890}"#;
    let otlp = convert_span_message(message).unwrap();
    let span = span_of(&otlp);
    assert!(matches!(field(span, "name"), JsonValue::Str(n) if n == "test-span"));
    assert!(matches!(field(span, "endTimeUnixNano"), JsonValue::PosInt(1234567890)));
}

#[test]
fn a_message_that_is_not_json_gives_nothing() {
    assert!(convert_span_message("invalid json").is_none());
}

#[test]
fn a_span_message_without_end_time_gives_nothing() {
    assert!(convert_span_message(r#"{"name":"test-span","traceId":"test-trace-id"}"#).is_none());
    assert!(convert_span_message(r#"{"name":"test-span","traceId":"test-trace-id","endTimeUnixNano":null}"#).is_none());
}

#[test]
fn a_complete_span_message_keeps_kind_status_and_scope() {
    let message = r#"{"name":"test-span","traceId":"test-trace-id","spanId":"test-span-id",
        "parentSpanId":"test-parent-span-id","kind":"SERVER","startTimeUnixNano":1733931461640310404,
        "endTimeUnixNano":1733931461640310404,
        "attributes":{"service.name":"test-service","http.method":"GET","http.url":"https://example.com"},
        "status":{"code":"OK"},"resource":{"attributes":{"service.name":"test-service","cloud.provider":"aws"}},
        "scope":{"name":"test-instrumentation","version":"1.0"}}"#;
    let otlp = convert_span_message(message).unwrap();
    let span = span_of(&otlp);
    assert!(matches!(field(span, "kind"), JsonValue::PosInt(2)));
    assert!(matches!(field(field(span, "status"), "code"), JsonValue::PosInt(1)));
    let scope = field(first(field(first(field(&otlp, "resourceSpans")), "scopeSpans")), "scope");
    assert!(matches!(field(scope, "name"), JsonValue::Str(n) if n == "test-instrumentation"));
}
