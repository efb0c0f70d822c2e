use opentelemetry_proto::tonic::collector::trace::v1::ExportTraceServiceRequest;
use opentelemetry_proto::tonic::common::v1::{any_value, AnyValue, KeyValue};
use opentelemetry_proto::tonic::resource::v1::Resource;
use opentelemetry_proto::tonic::trace::v1::{span, ResourceSpans, ScopeSpans, Span, Status};
use otlp_forwarder::livetrace::display::{
    calculate_layout_widths, collect_and_filter_timeline_items_for_trace, console_model,
    find_service_name, format_anyvalue, format_span_kind, format_span_status, grep_text_of,
    header_dashes, item_tag, parse_attr_globs, prepare_trace_data_from_batch, root_spans,
    span_name_cell, span_status, timeline_status, trace_heading, trace_timing, truncate_chars,
    waterfall_rows_of, ItemType, SpanStatus, TimelineSettings,
};
use otlp_forwarder::livetrace::otlp::{Attr, AttrValue, EventRecord, SpanRecord};
use otlp_forwarder::livetrace::processing::TelemetryData;
use prost::Message;

fn attr(key: &str, value: AttrValue) -> Attr {
    Attr { key: key.to_string(), value: Some(value) }
}

fn text(s: &str) -> AttrValue {
    AttrValue::Str(s.to_string())
}

fn rec(id: u8, parent: Option<u8>, start: u64, end: u64) -> SpanRecord {
    SpanRecord {
        trace_id: vec![7; 16],
        span_id: vec![id],
        parent_span_id: parent.map(|p| vec![p]).unwrap_or_default(),
        name: format!("span-{}", id),
        kind: 2,
        start_time_unix_nano: start,
        end_time_unix_nano: end,
        status_code: None,
        attributes: vec![],
        events: vec![],
    }
}

fn settings(events_only: bool, grep: Option<&str>, attrs: Option<&str>) -> TimelineSettings {
    TimelineSettings {
        filter: parse_attr_globs(&attrs.map(|s| s.to_string())),
        severity_attribute: "event.severity".to_string(),
        events_only,
        grep: grep.map(|s| s.to_string()),
    }
}

#[test]
fn values_have_display_and_grep_texts() {
    assert_eq!(format_anyvalue(&None), "<no_value>");
    assert_eq!(format_anyvalue(&Some(AttrValue::Empty)), "<empty_value>");
    assert_eq!(format_anyvalue(&Some(AttrValue::Int(-42))), "-42");
    assert_eq!(format_anyvalue(&Some(AttrValue::Bool(true))), "true");
    assert_eq!(format_anyvalue(&Some(AttrValue::Array(vec![]))), "[array]");
    let nested = AttrValue::Array(vec![
        text("a"),
        AttrValue::Int(i64::MIN),
        AttrValue::KvList(vec![("k".to_string(), Some(AttrValue::Bytes(vec![1, 2, 3]))), ("n".to_string(), None)]),
    ]);
    assert_eq!(
        grep_text_of(&Some(nested)),
        "a, -9223372036854775808, k:bytes_len:3, n:"
    );
    assert_eq!(grep_text_of(&None), "");
}

#[test]
fn service_names_kinds_and_statuses() {
    assert_eq!(find_service_name(&vec![]), "<unknown>");
    assert_eq!(
        find_service_name(&vec![attr("other", text("x")), attr("service.name", text("checkout"))]),
        "checkout"
    );
    assert_eq!(
        find_service_name(&vec![attr("service.name", AttrValue::Int(1)), attr("service.name", text("late"))]),
        "<unknown>"
    );
    assert_eq!(format_span_kind(2), "SERVER");
    assert_eq!(format_span_kind(9), "UNSPECIFIED");
    assert_eq!(span_status(Some(2)), SpanStatus::Error);
    assert_eq!(span_status(Some(7)), SpanStatus::Unset);
    assert_eq!(format_span_status(span_status(Some(1))), "OK");
    assert_eq!(format_span_status(span_status(None)), "UNSET");
}

#[test]
fn attribute_globs_filter_keys() {
    assert!(parse_attr_globs(&None).is_none());
    assert!(parse_attr_globs(&Some(String::new())).is_none());
    let f = parse_attr_globs(&Some(" http.* , [bad, db.*".to_string())).unwrap();
    assert_eq!(f.patterns, vec!["http.*".to_string(), "db.*".to_string()]);
}

#[test]
fn the_timeline_is_filtered_and_sorted() {
    let mut root = rec(1, None, 100, 900);
    root.attributes = vec![attr("http.method", text("GET")), attr("db.system", text("pg"))];
    root.status_code = Some(2);
    root.events = vec![
        EventRecord { name: "late".to_string(), time_unix_nano: 800, attributes: vec![] },
        EventRecord {
            name: "warned".to_string(),
            time_unix_nano: 150,
            attributes: vec![attr("event.severity", text("warn"))],
        },
    ];
    let child = rec(2, Some(1), 50, 60);
    let spans = vec![(root, "svc".to_string()), (child, "svc".to_string())];

    let all = collect_and_filter_timeline_items_for_trace(&spans, &settings(false, None, None));
    let times: Vec<u64> = all.iter().map(|i| i.timestamp_ns).collect();
    assert_eq!(times, vec![50, 100, 150, 800]);
    assert_eq!(all[1].item_type, ItemType::SpanStart);
    assert_eq!(all[1].level_or_status, "ERROR");
    assert_eq!(all[2].level_or_status, "WARN");
    assert_eq!(all[3].level_or_status, "ERROR");
    assert_eq!(timeline_status(&all[1]), "ERROR");
    assert_eq!(item_tag(all[2].item_type), "EVENT");

    let events = collect_and_filter_timeline_items_for_trace(&spans, &settings(true, None, None));
    assert_eq!(events.len(), 2);

    let filtered = collect_and_filter_timeline_items_for_trace(&spans, &settings(false, None, Some("http.*")));
    assert_eq!(filtered[1].attributes, vec![0]);

    let grepped = collect_and_filter_timeline_items_for_trace(&spans, &settings(false, Some("^pg$"), None));
    let names: Vec<(u64, ItemType)> = grepped.iter().map(|i| (i.timestamp_ns, i.item_type)).collect();
    assert_eq!(
        names,
        vec![(100, ItemType::SpanStart), (150, ItemType::Event), (800, ItemType::Event)]
    );
}

#[test]
fn the_waterfall_nests_children_in_start_order() {
    let spans = vec![
        (rec(3, Some(1), 300, 400), "s".to_string()),
        (rec(1, None, 100, 1000), "s".to_string()),
        (rec(2, Some(1), 200, 250), "s".to_string()),
        (rec(4, Some(2), 210, 220), "s".to_string()),
        (rec(5, Some(99), 50, 60), "s".to_string()),
    ];
    let rows = waterfall_rows_of(&spans);
    assert_eq!(rows, vec![(4, 0), (1, 0), (2, 1), (3, 2), (0, 1)]);
    let roots = root_spans(&spans);
    assert_eq!(roots, vec![4, 1]);
    assert_eq!(trace_timing(&spans, &roots), (50, 950));
}

#[test]
fn a_repeated_span_id_keeps_the_last_span() {
    let spans = vec![
        (rec(1, None, 100, 200), "first".to_string()),
        (rec(1, None, 150, 300), "second".to_string()),
    ];
    assert_eq!(waterfall_rows_of(&spans), vec![(1, 0)]);
}

#[test]
fn batches_are_grouped_by_trace() {
    let span = |trace: u8, id: u8| Span {
        trace_id: vec![trace; 16],
        span_id: vec![id; 8],
        name: format!("s{}", id),
        status: Some(Status { code: 1, ..Default::default() }),
        events: vec![span::Event { name: "e".to_string(), time_unix_nano: 5, ..Default::default() }],
        ..Default::default()
    };
    let request = ExportTraceServiceRequest {
        resource_spans: vec![ResourceSpans {
            resource: Some(Resource {
                attributes: vec![KeyValue {
                    key: "service.name".to_string(),
                    value: Some(AnyValue { value: Some(any_value::Value::StringValue("api".to_string())) }),
                    ..Default::default()
                }],
                ..Default::default()
            }),
            scope_spans: vec![ScopeSpans { spans: vec![span(1, 1), span(2, 2), span(1, 3)], ..Default::default() }],
            ..Default::default()
        }],
    };
    let batch = vec![
        TelemetryData { payload: request.encode_to_vec(), original_endpoint: String::new(), original_source: String::new() },
        TelemetryData { payload: vec![0xff], original_endpoint: String::new(), original_source: String::new() },
    ];
    let groups = prepare_trace_data_from_batch(&batch);
    assert_eq!(groups.len(), 2);
    assert_eq!(groups[0].0, "01".repeat(16));
    assert_eq!(groups[0].1.len(), 2);
    assert_eq!(groups[0].1[1].1, "api");
    assert_eq!(groups[1].1[0].0.status_code, Some(1));

    let model = console_model(&batch, &settings(false, None, None));
    assert_eq!(model.len(), 2);
    assert_eq!(model[0].rows.len(), 2);
    assert_eq!(model[0].timeline.len(), 4);
}

#[test]
fn layout_and_cells() {
    assert_eq!(calculate_layout_widths(200), (200, 86, 200));
    assert_eq!(calculate_layout_widths(80), (80, 10, 80));
    assert_eq!(header_dashes(20, 100), (1, 77));
    assert_eq!(header_dashes(20, 10), (1, 0));
    let (base, suffix) = trace_heading("abc", false);
    assert_eq!(base, "Trace ID: abc");
    assert_eq!(suffix, " (Missing Root)");
    assert_eq!(truncate_chars("héllo", 2), "hé");
    assert_eq!(span_name_cell(2, "op"), "     op");
    assert_eq!(span_name_cell(0, &"x".repeat(60)).chars().count(), 40);
}
