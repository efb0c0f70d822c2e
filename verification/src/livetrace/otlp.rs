//! OTLP trace requests as plain values: the records the console and the trace
//! buffering read from a decoded `ExportTraceServiceRequest`.
use vstd::prelude::*;
use opentelemetry_proto::tonic::collector::trace::v1::ExportTraceServiceRequest;
use opentelemetry_proto::tonic::common::v1::any_value::Value;
use opentelemetry_proto::tonic::common::v1::{AnyValue, KeyValue};
use opentelemetry_proto::tonic::trace::v1::{ResourceSpans, Span};
use prost::Message;

verus! {

#[verifier::external_type_specification]
#[verifier::external_body]
pub struct ExTraceServiceRequest(ExportTraceServiceRequest);

#[verifier::external_type_specification]
#[verifier::external_body]
pub struct ExResourceSpans(ResourceSpans);

#[verifier::external_type_specification]
#[verifier::external_body]
pub struct ExSpan(Span);

#[verifier::external_type_specification]
#[verifier::external_body]
pub struct ExKeyValue(KeyValue);

#[verifier::external_type_specification]
#[verifier::external_body]
pub struct ExAnyValue(AnyValue);

/// An OTLP attribute value held as plain values. Floating-point values are
/// held as the text Rust prints for them.
pub enum AttrValue {
    Str(String),
    Bool(bool),
    Int(i64),
    Double(String),
    Array(Vec<AttrValue>),
    KvList(Vec<(String, Option<AttrValue>)>),
    Bytes(Vec<u8>),
    /// A reference into a string table (profiles only).
    StringIndex(i32),
    /// A value message without a value.
    Empty,
}

/// A key and its value (`None` when the key carries no value message).
pub struct Attr {
    pub key: String,
    pub value: Option<AttrValue>,
}

/// A span event.
pub struct EventRecord {
    pub name: String,
    pub time_unix_nano: u64,
    pub attributes: Vec<Attr>,
}

/// The fields of a span that the logic reads.
pub struct SpanRecord {
    pub trace_id: Vec<u8>,
    pub span_id: Vec<u8>,
    pub parent_span_id: Vec<u8>,
    pub name: String,
    pub kind: i32,
    pub start_time_unix_nano: u64,
    pub end_time_unix_nano: u64,
    /// The status code, when the span has a status.
    pub status_code: Option<i32>,
    pub attributes: Vec<Attr>,
    pub events: Vec<EventRecord>,
}

/// The resource attributes of a group of spans (`None` when it has no
/// resource), and its spans by scope.
pub struct ResourceRecord {
    pub attributes: Option<Vec<Attr>>,
    pub scopes: Vec<Vec<SpanRecord>>,
}

/// The resource attributes of a group, none when it has no resource.
pub open spec fn resource_attrs(r: ResourceRecord) -> Seq<Attr> {
    match r.attributes {
        Some(a) => a@,
        None => Seq::empty(),
    }
}

/// The records of the `ExportTraceServiceRequest` that prost decodes from these
/// bytes, or `None` when decoding fails.
pub uninterp spec fn decoded_trace_records(payload: Seq<u8>) -> Option<Seq<ResourceRecord>>;

/// What a request holds: its resource spans, in order, each converted as
/// `decode_trace_request` converts them.
pub uninterp spec fn request_contents(request: ExportTraceServiceRequest) -> Seq<ResourceRecord>;

/// Conversion of one OTLP `AnyValue`, part of `decode_trace_request`: variant by
/// variant, moving the fields. A double is kept as the text Rust prints for
/// it, as the library holds no floating-point values.
#[verifier::external_body]
fn convert_any_value(v: AnyValue) -> AttrValue {
    match v.value {
        None => AttrValue::Empty,
        Some(Value::StringValueStrindex(i)) => AttrValue::StringIndex(i),
        Some(Value::StringValue(s)) => AttrValue::Str(s),
        Some(Value::BoolValue(b)) => AttrValue::Bool(b),
        Some(Value::IntValue(i)) => AttrValue::Int(i),
        Some(Value::DoubleValue(d)) => AttrValue::Double(d.to_string()),
        Some(Value::ArrayValue(a)) => AttrValue::Array(a.values.into_iter().map(convert_any_value).collect()),
        Some(Value::KvlistValue(l)) => AttrValue::KvList(l.values.into_iter().map(|kv| (kv.key, kv.value.map(convert_any_value))).collect()),
        Some(Value::BytesValue(b)) => AttrValue::Bytes(b),
    }
}

/// Conversion of OTLP key-values, in order, part of `decode_trace_request`.
#[verifier::external_body]
fn convert_attributes(kvs: Vec<KeyValue>) -> Vec<Attr> {
    kvs.into_iter().map(|kv| Attr { key: kv.key, value: kv.value.map(convert_any_value) }).collect()
}

/// Conversion of one OTLP span, part of `decode_trace_request`.
#[verifier::external_body]
fn convert_span(sp: Span) -> SpanRecord {
    SpanRecord {
        trace_id: sp.trace_id,
        span_id: sp.span_id,
        parent_span_id: sp.parent_span_id,
        name: sp.name,
        kind: sp.kind,
        start_time_unix_nano: sp.start_time_unix_nano,
        end_time_unix_nano: sp.end_time_unix_nano,
        status_code: sp.status.map(|s| s.code),
        attributes: convert_attributes(sp.attributes),
        events: sp.events.into_iter().map(|e| EventRecord { name: e.name, time_unix_nano: e.time_unix_nano, attributes: convert_attributes(e.attributes) }).collect(),
    }
}

/// Conversion of one OTLP resource with its spans by scope, part of
/// `decode_trace_request`.
#[verifier::external_body]
fn convert_resource(rs: ResourceSpans) -> ResourceRecord {
    ResourceRecord {
        attributes: rs.resource.map(|r| convert_attributes(r.attributes)),
        scopes: rs.scope_spans.into_iter().map(|ss| ss.spans.into_iter().map(convert_span).collect()).collect(),
    }
}

/// The bytes that `prost::Message::encode_to_vec` writes for a request.
pub uninterp spec fn trace_request_bytes(request: ExportTraceServiceRequest) -> Seq<u8>;

/// Whether the bytes prost writes for a request decode back to its contents.
pub open spec fn decodes_back(request: ExportTraceServiceRequest) -> bool {
    decoded_trace_records(trace_request_bytes(request)) == Some(request_contents(request))
}

/// `prost::Message::decode` of an `ExportTraceServiceRequest`: the request, and
/// its records, named by `decoded_trace_records`. A request that prost has
/// decoded is within its nesting limit, so the bytes it writes for it decode
/// back to the same contents (`decodes_back`).
#[verifier::external_body]
pub(crate) fn decode_trace_request(payload: &[u8]) -> (r: Option<(ExportTraceServiceRequest, Vec<ResourceRecord>)>)
    ensures
        match r {
            Some(x) => decoded_trace_records(payload@) == Some(x.1@) && request_contents(x.0) == x.1@
                && decodes_back(x.0),
            None => decoded_trace_records(payload@) is None,
        },
{
    match ExportTraceServiceRequest::decode(payload) {
        Ok(req) => {
            let records = req.resource_spans.iter().cloned().map(convert_resource).collect();
            Some((req, records))
        },
        Err(_) => None,
    }
}

/// The records of a payload, or `None` when it does not decode.
pub fn decode_records(payload: &[u8]) -> (r: Option<Vec<ResourceRecord>>)
    ensures
        match r {
            Some(v) => decoded_trace_records(payload@) == Some(v@),
            None => decoded_trace_records(payload@) is None,
        },
{
    match decode_trace_request(payload) {
        Some((_, records)) => Some(records),
        None => None,
    }
}

/// The `(trace_id, parent_span_id)` of each span, by resource and scope.
pub open spec fn record_span_ids(res: Seq<ResourceRecord>) -> Seq<Seq<Seq<(Seq<u8>, Seq<u8>)>>> {
    res.map_values(
        |r: ResourceRecord|
            r.scopes@.map_values(
                |sc: Vec<SpanRecord>| sc@.map_values(|sp: SpanRecord| (sp.trace_id@, sp.parent_span_id@)),
            ),
    )
}

/// The span ids of the request decoded from a payload.
pub open spec fn trace_request_span_ids(payload: Seq<u8>) -> Option<Seq<Seq<Seq<(Seq<u8>, Seq<u8>)>>>> {
    match decoded_trace_records(payload) {
        Some(r) => Some(record_span_ids(r)),
        None => None,
    }
}

} // verus!
