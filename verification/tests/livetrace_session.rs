use opentelemetry_proto::tonic::collector::trace::v1::ExportTraceServiceRequest;
use opentelemetry_proto::tonic::trace::v1::{ResourceSpans, ScopeSpans, Span};
use otlp_forwarder::livetrace::otlp::{ResourceRecord, SpanRecord};
use otlp_forwarder::livetrace::processing::TelemetryData;
use otlp_forwarder::livetrace::session::{
    check_discovery, check_forwarding, elapsed_ms, log_group_name_from_arn, log_level_for,
    trace_of_spans, verbosity_label, LogLevel, PayloadOutcome, TraceBuffers,
};
use prost::Message;

fn span(trace_id: Vec<u8>, parent: Vec<u8>) -> Span {
    Span {
        trace_id,
        span_id: vec![1, 2, 3, 4, 5, 6, 7, 8],
        parent_span_id: parent,
        name: "op".to_string(),
        ..Default::default()
    }
}

fn payload(spans: Vec<Span>) -> TelemetryData {
    let request = ExportTraceServiceRequest {
        resource_spans: vec![ResourceSpans {
            scope_spans: vec![ScopeSpans {
                spans,
                ..Default::default()
            }],
            ..Default::default()
        }],
    };
    TelemetryData {
        payload: request.encode_to_vec(),
        original_endpoint: "ep".to_string(),
        original_source: "src".to_string(),
    }
}

#[test]
fn discovery_needs_patterns_or_a_stack() {
    assert!(check_discovery(&None, &None).is_err());
    assert_eq!(
        check_discovery(&None, &None).err().unwrap().message(),
        "Either --log-group-pattern or --stack-name must be provided on the command line or in the configuration profile"
    );
    assert!(check_discovery(&Some(vec!["a".to_string()]), &None).is_ok());
    assert!(check_discovery(&None, &Some("stack".to_string())).is_ok());
}

#[test]
fn forward_only_needs_an_endpoint() {
    assert!(check_forwarding(true, &None).is_err());
    assert!(check_forwarding(true, &None)
        .err()
        .unwrap()
        .message()
        .starts_with("\n            --forward-only requires --otlp-endpoint argument"));
    assert!(check_forwarding(true, &Some("http://x".to_string())).is_ok());
    assert!(check_forwarding(false, &None).is_ok());
}

#[test]
fn verbosity_maps_to_levels_and_labels() {
    assert_eq!(log_level_for(0), LogLevel::Info);
    assert_eq!(log_level_for(1), LogLevel::Debug);
    assert_eq!(log_level_for(4), LogLevel::Trace);
    assert_eq!(verbosity_label(0), "Normal");
    assert_eq!(verbosity_label(1), "Debug (-v)");
    assert_eq!(verbosity_label(2), "Trace (-vv)");
    assert_eq!(verbosity_label(4), "Trace (-vvvv)");
}

#[test]
fn log_group_name_is_the_text_after_the_last_colon() {
    assert_eq!(
        log_group_name_from_arn("arn:aws:logs:us-east-1:123456789012:log-group:/aws/lambda/fn"),
        "/aws/lambda/fn"
    );
    assert_eq!(log_group_name_from_arn("no-colon"), "no-colon");
    assert_eq!(log_group_name_from_arn("ends:"), "");
}

fn record(trace_id: Vec<u8>, parent: Vec<u8>) -> SpanRecord {
    SpanRecord {
        trace_id,
        span_id: vec![1],
        parent_span_id: parent,
        name: "op".to_string(),
        kind: 1,
        start_time_unix_nano: 0,
        end_time_unix_nano: 0,
        status_code: None,
        attributes: vec![],
        events: vec![],
    }
}

#[test]
fn trace_id_is_hex_of_the_first_span_and_roots_have_no_parent() {
    let resources = vec![ResourceRecord {
        attributes: Some(vec![]),
        scopes: vec![
            vec![record(vec![0xab, 0x01], vec![9u8])],
            vec![record(vec![0xcd], vec![]), record(vec![0xef], vec![1u8])],
        ],
    }];
    let (id, root) = trace_of_spans(&resources).unwrap();
    assert_eq!(id, "ab01");
    assert!(root);
    let no_root = vec![ResourceRecord {
        attributes: Some(vec![]),
        scopes: vec![vec![record(vec![0x00, 0x0f], vec![7u8])]],
    }];
    assert_eq!(trace_of_spans(&no_root), Some(("000f".to_string(), false)));
    let empty = vec![ResourceRecord { attributes: None, scopes: vec![vec![]] }];
    assert_eq!(trace_of_spans(&empty), None);
}

#[test]
fn payloads_are_buffered_by_trace() {
    let mut buffers = TraceBuffers::new();
    assert_eq!(
        buffers.on_payload(payload(vec![span(vec![1; 16], vec![2; 8])]), 100),
        PayloadOutcome::Buffered
    );
    assert_eq!(
        buffers.on_payload(payload(vec![span(vec![1; 16], vec![])]), 200),
        PayloadOutcome::Buffered
    );
    assert_eq!(
        buffers.on_payload(payload(vec![span(vec![3; 16], vec![4; 8])]), 250),
        PayloadOutcome::Buffered
    );
    assert_eq!(buffers.pending_count(), 2);
    assert_eq!(buffers.on_payload(payload(vec![]), 260), PayloadOutcome::NoSpans);
    let garbage = TelemetryData {
        payload: vec![0xff, 0xff],
        original_endpoint: String::new(),
        original_source: String::new(),
    };
    assert_eq!(buffers.on_payload(garbage, 270), PayloadOutcome::DecodeFailed);
    assert_eq!(buffers.pending_count(), 2);

    // Nothing is due yet: the root arrived 100 ms ago, the idle wait is 500 ms.
    assert!(buffers.take_due(300, 500, 5000).is_empty());
    // The first trace has its root and has been idle for 600 ms: it is flushed
    // with both payloads; the other has no root and stays.
    let flushed = buffers.take_due(800, 500, 5000);
    assert_eq!(flushed.len(), 1);
    assert_eq!(flushed[0].trace_id, "01".repeat(16));
    assert_eq!(flushed[0].payloads.len(), 2);
    assert!(flushed[0].has_received_root);
    assert_eq!(buffers.pending_count(), 1);
    // Without a root, a trace goes once it is older than the timeout.
    assert!(buffers.take_due(5000, 500, 5000).is_empty());
    let late = buffers.take_due(5251, 500, 5000);
    assert_eq!(late.len(), 1);
    assert_eq!(late[0].trace_id, "03".repeat(16));
    assert!(!late[0].has_received_root);
    assert_eq!(buffers.pending_count(), 0);
}

#[test]
fn elapsed_time_never_goes_negative() {
    assert_eq!(elapsed_ms(10, 4), 6);
    assert_eq!(elapsed_ms(4, 10), 0);
}
