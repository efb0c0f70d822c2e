use base64::engine::general_purpose;
use base64::Engine;
use flate2::read::GzDecoder;
use opentelemetry_proto::tonic::collector::trace::v1::ExportTraceServiceRequest;
use opentelemetry_proto::tonic::common::v1::{any_value, AnyValue, KeyValue};
use opentelemetry_proto::tonic::resource::v1::Resource;
use opentelemetry_proto::tonic::trace::v1::{ResourceSpans, ScopeSpans};
use otlp_forwarder::livetrace::processing::{
    compact_telemetry_payloads, compress_payload, convert_to_protobuf, process_log_event_message,
    ProcessingError, SpanCompactionConfig, TelemetryData,
};
use otlp_stdout_span_exporter::ExporterOutput;
use prost::Message;
use std::io::Read;

fn create_dummy_request() -> ExportTraceServiceRequest {
    create_dummy_request_with_service("test-service")
}

fn create_dummy_request_with_service(service_name: &str) -> ExportTraceServiceRequest {
    ExportTraceServiceRequest {
        resource_spans: vec![ResourceSpans {
            resource: Some(Resource {
                attributes: vec![KeyValue {
                    key: "service.name".to_string(),
                    value: Some(AnyValue {
                        value: Some(any_value::Value::StringValue(service_name.to_string())),
                    }),
                    ..Default::default()
                }],
                dropped_attributes_count: 0,
                ..Default::default()
            }),
            scope_spans: vec![ScopeSpans {
                ..Default::default()
            }],
            schema_url: String::new(),
        }],
    }
}

fn decompress_payload(compressed_data: &[u8]) -> Vec<u8> {
    let mut decoder = GzDecoder::new(compressed_data);
    let mut decompressed_data = Vec::new();
    decoder
        .read_to_end(&mut decompressed_data)
        .expect("Failed to decompress payload in test");
    decompressed_data
}

fn exporter_message(content_type: &str, payload: String) -> String {
    let exporter_output = ExporterOutput {
        version: "1".to_string(),
        source: "test_source".to_string(),
        endpoint: "test_endpoint".to_string(),
        content_type: content_type.to_string(),
        content_encoding: "gzip".to_string(),
        base64: true,
        payload,
        method: String::new(),
        headers: Some(std::collections::HashMap::new()),
        level: Some("info".to_string()),
    };
    serde_json::to_string(&exporter_output).unwrap()
}

#[test]
fn test_process_log_event_message_valid_protobuf() {
    let request = create_dummy_request();
    let proto_bytes = request.encode_to_vec();
    let compressed_proto = compress_payload(&proto_bytes, 6).ok().unwrap();
    let b64_payload = general_purpose::STANDARD.encode(&compressed_proto);
    let json_message = exporter_message("application/x-protobuf", b64_payload);

    let result = process_log_event_message(&json_message).ok().unwrap();

    assert!(result.is_some());
    let telemetry_data = result.unwrap();
    assert_eq!(telemetry_data.original_source, "test_source");
    assert_eq!(telemetry_data.original_endpoint, "test_endpoint");

    let decoded_request =
        ExportTraceServiceRequest::decode(telemetry_data.payload.as_slice()).unwrap();
    assert_eq!(decoded_request.resource_spans.len(), 1);
    assert_eq!(
        decoded_request.resource_spans[0]
            .resource
            .as_ref()
            .unwrap()
            .attributes[0]
            .key,
        "service.name"
    );
}

#[test]
fn test_compact_telemetry_payloads_multiple_items() {
    let req1 = create_dummy_request_with_service("service-a");
    let telemetry1 = TelemetryData {
        payload: req1.encode_to_vec(),
        original_endpoint: "ep".to_string(),
        original_source: "src-a".to_string(),
    };
    let req2 = create_dummy_request_with_service("service-b");
    let telemetry2 = TelemetryData {
        payload: req2.encode_to_vec(),
        original_endpoint: "ep".to_string(),
        original_source: "src-b".to_string(),
    };

    let batch = vec![telemetry1, telemetry2];
    let config = SpanCompactionConfig::default();

    let result = compact_telemetry_payloads(batch, &config);
    assert!(result.is_ok());
    let compacted_data = result.ok().unwrap();

    let decompressed = decompress_payload(&compacted_data.payload);
    let merged_request = ExportTraceServiceRequest::decode(decompressed.as_slice()).unwrap();

    assert_eq!(merged_request.resource_spans.len(), 2);
    let service_names: Vec<String> = merged_request
        .resource_spans
        .iter()
        .filter_map(|rs| rs.resource.as_ref())
        .flat_map(|r| r.attributes.iter())
        .filter(|kv| kv.key == "service.name")
        .filter_map(|kv| {
            kv.value.as_ref().and_then(|v| {
                if let Some(any_value::Value::StringValue(s)) = &v.value {
                    Some(s.clone())
                } else {
                    None
                }
            })
        })
        .collect();
    assert!(service_names.contains(&"service-a".to_string()));
    assert!(service_names.contains(&"service-b".to_string()));
}

#[test]
fn test_compact_telemetry_payloads_single_item() {
    let req1 = create_dummy_request_with_service("service-single");
    let payload1 = req1.encode_to_vec();
    let telemetry1 = TelemetryData {
        payload: payload1.clone(),
        original_endpoint: "ep-single".to_string(),
        original_source: "src-single".to_string(),
    };

    let batch = vec![telemetry1];
    let config = SpanCompactionConfig::default();

    let result = compact_telemetry_payloads(batch, &config);
    assert!(result.is_ok());
    let compacted_data = result.ok().unwrap();

    let decompressed = decompress_payload(&compacted_data.payload);
    let final_request = ExportTraceServiceRequest::decode(decompressed.as_slice()).unwrap();

    assert_eq!(final_request.resource_spans.len(), 1);
    let service_name = final_request.resource_spans[0]
        .resource
        .as_ref()
        .unwrap()
        .attributes[0]
        .value
        .as_ref()
        .unwrap()
        .value
        .as_ref();
    if let Some(any_value::Value::StringValue(s)) = service_name {
        assert_eq!(s, "service-single");
    } else {
        panic!("Expected string value for service name");
    }
}

#[test]
fn test_process_log_event_message_invalid_json() {
    let invalid_json_message = "{ not json \"";
    let result = process_log_event_message(invalid_json_message).ok().unwrap();
    assert!(result.is_none());
}

#[test]
fn test_process_log_event_message_invalid_base64() {
    let json_message = exporter_message("application/x-protobuf", "this is not base64===".to_string());
    let result = process_log_event_message(&json_message);
    assert!(result.is_err());
    assert!(result
        .err()
        .unwrap()
        .message()
        .contains("Failed to decode base64 payload"));
}

#[test]
fn test_process_log_event_message_invalid_gzip() {
    let not_gzip_data = b"this is not gzip data";
    let b64_payload = general_purpose::STANDARD.encode(not_gzip_data);
    let json_message = exporter_message("application/x-protobuf", b64_payload);
    let result = process_log_event_message(&json_message);
    assert!(result.is_err());
}

#[test]
fn a_payload_that_fails_to_convert_is_reported_with_its_cause() {
    let not_gzip_data = b"this is not gzip data";
    let b64_payload = general_purpose::STANDARD.encode(not_gzip_data);
    let json_message = exporter_message("application/x-protobuf", b64_payload);
    assert_eq!(
        process_log_event_message(&json_message).err().unwrap().message(),
        "Failed to convert payload to protobuf: Failed to decompress Gzip payload"
    );
}


#[test]
fn a_message_without_payload_is_skipped() {
    let json_message = exporter_message("application/x-protobuf", String::new());
    assert!(process_log_event_message(&json_message).ok().unwrap().is_none());
}

#[test]
fn an_empty_batch_cannot_be_compacted() {
    let result = compact_telemetry_payloads(Vec::new(), &SpanCompactionConfig::default());
    assert_eq!(result.err().unwrap().message(), "Cannot compact an empty batch");
}

#[test]
fn a_batch_where_nothing_decodes_is_refused() {
    let bad = |s: &str| TelemetryData {
        payload: vec![0xff, 0xff, 0xff],
        original_endpoint: "ep".to_string(),
        original_source: s.to_string(),
    };
    let result = compact_telemetry_payloads(vec![bad("a"), bad("b")], &SpanCompactionConfig::default());
    assert_eq!(
        result.err().unwrap().message(),
        "All payloads in the batch failed to decode"
    );
}

#[test]
fn undecodable_payloads_are_skipped_when_compacting() {
    let good = TelemetryData {
        payload: create_dummy_request_with_service("kept").encode_to_vec(),
        original_endpoint: "ep-first".to_string(),
        original_source: "src-first".to_string(),
    };
    let bad = TelemetryData {
        payload: vec![0xff, 0xff, 0xff],
        original_endpoint: "ep".to_string(),
        original_source: "src".to_string(),
    };
    let compacted = compact_telemetry_payloads(vec![bad, good], &SpanCompactionConfig::default())
        .ok()
        .unwrap();
    assert_eq!(compacted.original_endpoint, "ep");
    let merged = ExportTraceServiceRequest::decode(decompress_payload(&compacted.payload).as_slice()).unwrap();
    assert_eq!(merged.resource_spans.len(), 1);
}

#[test]
fn compressed_payload_differs_from_its_input_and_inflates_back() {
    let data = b"hello hello hello hello".to_vec();
    let compressed = compress_payload(&data, 6).ok().unwrap();
    assert_ne!(compressed, data);
    assert_eq!(decompress_payload(&compressed), data);
}

#[test]
fn json_payloads_are_converted_to_protobuf() {
    let request = create_dummy_request_with_service("from-json");
    let json = serde_json::to_vec(&request).unwrap();
    let converted = convert_to_protobuf(json.clone(), "application/json", None).ok().unwrap();
    assert_ne!(converted, json);
    let decoded = ExportTraceServiceRequest::decode(converted.as_slice()).unwrap();
    assert_eq!(decoded.resource_spans.len(), 1);
}

#[test]
fn unknown_content_type_that_does_not_decode_is_reported() {
    let result = convert_to_protobuf(vec![0xff, 0xff], "text/plain", None);
    assert_eq!(
        result.err().unwrap().message(),
        "Payload has unknown content-type 'text/plain' and failed to decode as protobuf"
    );
}

#[test]
fn protobuf_that_does_not_decode_is_reported() {
    let result = convert_to_protobuf(vec![0xff, 0xff], "application/x-protobuf", Some("identity"));
    assert_eq!(
        result.err().unwrap().message(),
        "Payload has content-type protobuf but failed to decode"
    );
}
