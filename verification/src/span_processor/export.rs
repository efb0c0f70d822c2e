//! Converting a raw JSON span record into an OTLP export request, as protobuf
//! bytes or as OTLP JSON.
use vstd::prelude::*;
use opentelemetry_proto::tonic::collector::trace::v1::ExportTraceServiceRequest;
use opentelemetry_proto::tonic::common::v1::{any_value, AnyValue, ArrayValue, InstrumentationScope, KeyValue};
use opentelemetry_proto::tonic::resource::v1::Resource;
use opentelemetry_proto::tonic::trace::v1::{ResourceSpans, ScopeSpans, Span, Status};
use prost::Message;
use serde_json::Value;
use crate::json::{
    compact_json_text, from_serde_value, entry_lookup, find_entry, get, get_field, get_object, get_str, get_u64, json_text,
    entry_views, item_views, json_view, lemma_entry_views, lemma_item_views, object_field, parse_json_text, parsed_json,
    str_field, u64_field, view_lookup, JsonValue, JsonView,
};
use crate::text::{to_uppercase, uppercase_of};

verus! {

/// An OTLP attribute value to be written. A double is given by its decimal
/// text.
pub enum OtlpValue {
    Str(String),
    Bool(bool),
    Int(i64),
    Double(String),
    Array(Vec<OtlpValue>),
}

/// An OTLP key-value to be written.
pub struct OtlpAttr {
    pub key: String,
    pub value: OtlpValue,
}

/// The one span of the export request made from a record, with its resource
/// attributes and its instrumentation scope. The ids are the record's text.
pub struct ExportSpan {
    pub resource_attributes: Vec<OtlpAttr>,
    pub scope_name: String,
    pub scope_version: String,
    pub trace_id: String,
    pub span_id: String,
    pub parent_span_id: Option<String>,
    pub name: String,
    pub kind: i32,
    pub start_time_unix_nano: u64,
    pub end_time_unix_nano: u64,
    pub attributes: Vec<OtlpAttr>,
    pub status_code: i32,
}

/// Why a record cannot be converted.
#[derive(Clone, Copy, Debug, PartialEq, Eq, Structural)]
pub enum ConversionError {
    /// The record is not a JSON object.
    NotAnObject,
    /// `endTimeUnixNano` is missing, null or not a non-negative integer.
    MissingEndTime,
}

impl ConversionError {
    /// The error message.
    pub fn message(&self) -> (r: String)
        ensures
            r@ == match self {
                ConversionError::NotAnObject => "Record is not an object"@,
                ConversionError::MissingEndTime => "Missing or invalid endTimeUnixNano"@,
            },
    {
        match self {
            ConversionError::NotAnObject => String::from_str("Record is not an object"),
            ConversionError::MissingEndTime => String::from_str("Missing or invalid endTimeUnixNano"),
        }
    }
}

/// OTLP status codes by name (after upper-casing): `OK` is 1, `ERROR` is 2,
/// anything else is unset (0).
pub open spec fn status_code_spec(code: Seq<char>) -> i32 {
    let u = uppercase_of(code);
    if u == "OK"@ {
        1
    } else if u == "ERROR"@ {
        2
    } else {
        0
    }
}

/// OTLP span kinds by name (after upper-casing): `INTERNAL` 1, `SERVER` 2,
/// `CLIENT` 3, `PRODUCER` 4, `CONSUMER` 5, anything else unspecified (0).
pub open spec fn span_kind_spec(kind: Seq<char>) -> i32 {
    let u = uppercase_of(kind);
    if u == "INTERNAL"@ {
        1
    } else if u == "SERVER"@ {
        2
    } else if u == "CLIENT"@ {
        3
    } else if u == "PRODUCER"@ {
        4
    } else if u == "CONSUMER"@ {
        5
    } else {
        0
    }
}

pub fn map_status_code(code: &str) -> (r: i32)
    ensures
        r == status_code_spec(code@),
{
    let u = to_uppercase(code);
    if crate::text::str_eq(u.as_str(), "OK") {
        1
    } else if crate::text::str_eq(u.as_str(), "ERROR") {
        2
    } else {
        0
    }
}

pub fn map_span_kind(kind: &str) -> (r: i32)
    ensures
        r == span_kind_spec(kind@),
{
    let u = to_uppercase(kind);
    let s = u.as_str();
    if crate::text::str_eq(s, "INTERNAL") {
        1
    } else if crate::text::str_eq(s, "SERVER") {
        2
    } else if crate::text::str_eq(s, "CLIENT") {
        3
    } else if crate::text::str_eq(s, "PRODUCER") {
        4
    } else if crate::text::str_eq(s, "CONSUMER") {
        5
    } else {
        0
    }
}

/// `o` is the OTLP value of the JSON value `v`: booleans and strings as they
/// are; integers that fit `i64` as integers, larger ones as doubles (from
/// their decimal text); floats as doubles; arrays element by element; `null` and objects as their JSON text.
pub open spec fn value_converted(v: JsonValue, o: OtlpValue) -> bool
    decreases v, 0int,
{
    match v {
        JsonValue::Bool(b) => o == OtlpValue::Bool(b),
        JsonValue::PosInt(u) => if u <= i64::MAX {
            o == OtlpValue::Int(u as i64)
        } else {
            o matches OtlpValue::Double(t) && t@ == crate::text::decimal_text(u as nat)
        },
        JsonValue::NegInt(i) => o == OtlpValue::Int(i),
        JsonValue::Float(f) => o matches OtlpValue::Double(t) && t@ == f@,
        JsonValue::Str(s) => o matches OtlpValue::Str(t) && t@ == s@,
        JsonValue::Array(items) => match o {
            OtlpValue::Array(outs) => {
                proof {
                    assert(decreases_to!(v => items));
                    assert(decreases_to!(items => items@));
                }
                outs@.len() == items@.len() && items_converted(items@, outs@, items@.len() as int)
            },
            _ => false,
        },
        JsonValue::Null => o matches OtlpValue::Str(t) && t@ == json_text(json_view(v)),
        JsonValue::Object(_) => o matches OtlpValue::Str(t) && t@ == json_text(json_view(v)),
    }
}

/// The first `n` values are converted pairwise.
pub open spec fn items_converted(items: Seq<JsonValue>, outs: Seq<OtlpValue>, n: int) -> bool
    decreases items, n,
{
    if n <= 0 || n > items.len() {
        true
    } else {
        proof {
            assert(decreases_to!(items => items[n - 1]));
        }
        items_converted(items, outs, n - 1) && value_converted(items[n - 1], outs[n - 1])
    }
}

/// The attributes of a JSON object: one per entry, in order, with the entry's
/// name and converted value.
pub open spec fn attrs_converted(entries: Seq<(String, JsonValue)>, attrs: Seq<OtlpAttr>) -> bool {
    &&& attrs.len() == entries.len()
    &&& forall|i: int|
        0 <= i < entries.len() ==> (#[trigger] attrs[i]).key@ == entries[i].0@ && value_converted(
            entries[i].1,
            attrs[i].value,
        )
}

proof fn lemma_items_converted_extend(items: Seq<JsonValue>, outs: Seq<OtlpValue>, n: int, o: OtlpValue)
    requires
        0 <= n < items.len(),
        outs.len() == n,
        items_converted(items, outs, n),
        value_converted(items[n], o),
    ensures
        items_converted(items, outs.push(o), n + 1),
    decreases n,
{
    lemma_items_converted_prefix(items, outs, outs.push(o), n);
}

proof fn lemma_items_converted_prefix(items: Seq<JsonValue>, a: Seq<OtlpValue>, b: Seq<OtlpValue>, n: int)
    requires
        0 <= n <= a.len(),
        n <= b.len(),
        forall|i: int| 0 <= i < n ==> a[i] == b[i],
        items_converted(items, a, n),
    ensures
        items_converted(items, b, n),
    decreases n,
{
    if n > 0 && n <= items.len() {
        lemma_items_converted_prefix(items, a, b, n - 1);
    }
}

/// Converts a JSON value to an OTLP value (see `value_converted`).
pub fn convert_value(v: &JsonValue) -> (o: OtlpValue)
    ensures
        value_converted(*v, o),
    decreases v,
{
    match v {
        JsonValue::Bool(b) => OtlpValue::Bool(*b),
        JsonValue::PosInt(u) => if *u <= 9223372036854775807u64 {
            OtlpValue::Int(*u as i64)
        } else {
            OtlpValue::Double(crate::text::u64_to_string(*u))
        },
        JsonValue::NegInt(i) => OtlpValue::Int(*i),
        JsonValue::Float(f) => OtlpValue::Double(f.clone()),
        JsonValue::Str(s) => OtlpValue::Str(s.clone()),
        JsonValue::Array(items) => {
            let mut outs: Vec<OtlpValue> = Vec::new();
            let mut i: usize = 0;
            while i < items.len()
                invariant
                    *v == JsonValue::Array(*items),
                    i <= items@.len(),
                    outs@.len() == i,
                    items_converted(items@, outs@, i as int),
                decreases items@.len() - i,
            {
                proof {
                    assert(decreases_to!(*v => (*v)->Array_0));
                    assert(decreases_to!(*items => items@));
                    assert(decreases_to!(items@ => items@[i as int]));
                }
                let o = convert_value(&items[i]);
                proof {
                    lemma_items_converted_extend(items@, outs@, i as int, o);
                }
                outs.push(o);
                i = i + 1;
            }
            OtlpValue::Array(outs)
        },
        JsonValue::Null => OtlpValue::Str(compact_json_text(v)),
        JsonValue::Object(_) => OtlpValue::Str(compact_json_text(v)),
    }
}

/// Converts the entries of a JSON object to attributes (see `attrs_converted`).
pub fn convert_attributes(entries: &Vec<(String, JsonValue)>) -> (r: Vec<OtlpAttr>)
    ensures
        attrs_converted(entries@, r@),
{
    let mut out: Vec<OtlpAttr> = Vec::new();
    let mut i: usize = 0;
    while i < entries.len()
        invariant
            i <= entries@.len(),
            attrs_converted(entries@.take(i as int), out@),
        decreases entries@.len() - i,
    {
        let value = convert_value(&entries[i].1);
        out.push(OtlpAttr { key: entries[i].0.clone(), value });
        i = i + 1;
        assert forall|k: int| 0 <= k < i implies (#[trigger] out@[k]).key@ == entries@.take(i as int)[k].0@
            && value_converted(entries@.take(i as int)[k].1, out@[k].value) by {
            assert(entries@.take(i as int)[k] == entries@[k]);
            if k < i - 1 {
                assert(entries@.take(i - 1)[k] == entries@[k]);
            }
        }
    }
    assert(entries@.take(entries@.len() as int) =~= entries@);
    out
}

/// The `status.code` of a record, when it is a string.
pub open spec fn status_code_text(record: JsonValue) -> Option<Seq<char>> {
    match get_field(record, "status"@) {
        Some(s) => str_field(s, "code"@),
        None => None,
    }
}

/// The resource attributes of a record: the object `resource.attributes`.
pub open spec fn resource_entries(record: JsonValue) -> Seq<(String, JsonValue)> {
    match get_field(record, "resource"@) {
        Some(r) => object_field(r, "attributes"@),
        None => Seq::empty(),
    }
}

/// A text, or the given default.
pub open spec fn text_or(o: Option<Seq<char>>, d: Seq<char>) -> Seq<char> {
    match o {
        Some(s) => s,
        None => d,
    }
}

/// The `name` or `version` of the record's `scope` object (empty when absent).
pub open spec fn scope_text(record: JsonValue, key: Seq<char>) -> Seq<char> {
    match entry_lookup(object_field(record, "scope"@), key) {
        Some(JsonValue::Str(s)) => s@,
        _ => Seq::empty(),
    }
}

/// `e` is the export span of a JSON record that is an object with an end time:
/// absent texts are empty (the name is `UnnamedSpan`), absent times zero, an
/// absent kind unspecified and an absent status unset.
pub open spec fn export_of(record: JsonValue, e: ExportSpan) -> bool {
    &&& u64_field(record, "endTimeUnixNano"@) == Some(e.end_time_unix_nano)
    &&& attrs_converted(resource_entries(record), e.resource_attributes@)
    &&& e.scope_name@ == scope_text(record, "name"@)
    &&& e.scope_version@ == scope_text(record, "version"@)
    &&& e.trace_id@ == text_or(str_field(record, "traceId"@), Seq::empty())
    &&& e.span_id@ == text_or(str_field(record, "spanId"@), Seq::empty())
    &&& crate::text::opt_seq(e.parent_span_id) == str_field(record, "parentSpanId"@)
    &&& e.name@ == text_or(str_field(record, "name"@), "UnnamedSpan"@)
    &&& e.kind == (match str_field(record, "kind"@) {
        Some(k) => span_kind_spec(k),
        None => 0,
    })
    &&& e.start_time_unix_nano == (match u64_field(record, "startTimeUnixNano"@) {
        Some(t) => t,
        None => 0,
    })
    &&& attrs_converted(object_field(record, "attributes"@), e.attributes@)
    &&& e.status_code == (match status_code_text(record) {
        Some(c) => status_code_spec(c),
        None => 0,
    })
}

/// When a record cannot be converted, and why: it must be an object, and have
/// a non-negative integer `endTimeUnixNano`.
pub open spec fn conversion_failure(record: JsonValue) -> Option<ConversionError> {
    if !(record is Object) {
        Some(ConversionError::NotAnObject)
    } else if u64_field(record, "endTimeUnixNano"@) is None {
        Some(ConversionError::MissingEndTime)
    } else {
        None
    }
}

fn text_or_empty(s: Option<&String>) -> (r: String)
    ensures
        r@ == match s {
            Some(t) => t@,
            None => Seq::<char>::empty(),
        },
{
    match s {
        Some(t) => t.clone(),
        None => String::new(),
    }
}

/// The export span of a JSON record (see `export_of` and `conversion_failure`).
pub fn span_export_of(record: &JsonValue) -> (r: Result<ExportSpan, ConversionError>)
    ensures
        match r {
            Ok(e) => conversion_failure(*record) is None && export_of(*record, e),
            Err(err) => conversion_failure(*record) == Some(err),
        },
{
    if !matches!(record, JsonValue::Object(_)) {
        return Err(ConversionError::NotAnObject);
    }
    let end_time = match get_u64(record, "endTimeUnixNano") {
        Some(t) => t,
        None => return Err(ConversionError::MissingEndTime),
    };
    let empty: Vec<(String, JsonValue)> = Vec::new();
    let resource_entries_v = match get(record, "resource") {
        Some(res) => match get_object(res, "attributes") {
            Some(e) => e,
            None => &empty,
        },
        None => &empty,
    };
    let resource_attributes = convert_attributes(resource_entries_v);
    let scope_entries = match get_object(record, "scope") {
        Some(e) => e,
        None => &empty,
    };
    let scope_name = match find_entry(scope_entries, "name") {
        Some(JsonValue::Str(s)) => s.clone(),
        _ => String::new(),
    };
    let scope_version = match find_entry(scope_entries, "version") {
        Some(JsonValue::Str(s)) => s.clone(),
        _ => String::new(),
    };
    let trace_id = text_or_empty(get_str(record, "traceId"));
    let span_id = text_or_empty(get_str(record, "spanId"));
    let parent_span_id = match get_str(record, "parentSpanId") {
        Some(p) => Some(p.clone()),
        None => None,
    };
    let name = match get_str(record, "name") {
        Some(n) => n.clone(),
        None => String::from_str("UnnamedSpan"),
    };
    let kind = match get_str(record, "kind") {
        Some(k) => map_span_kind(k.as_str()),
        None => 0,
    };
    let start_time = match get_u64(record, "startTimeUnixNano") {
        Some(t) => t,
        None => 0,
    };
    let span_entries = match get_object(record, "attributes") {
        Some(e) => e,
        None => &empty,
    };
    let attributes = convert_attributes(span_entries);
    let status_code = match get(record, "status") {
        Some(s) => match get_str(s, "code") {
            Some(c) => map_status_code(c.as_str()),
            None => 0,
        },
        None => 0,
    };
    proof {
        reveal_strlit("UnnamedSpan");
        assert(empty@ =~= Seq::<(String, JsonValue)>::empty());
    }
    Ok(
        ExportSpan {
            resource_attributes,
            scope_name,
            scope_version,
            trace_id,
            span_id,
            parent_span_id,
            name,
            kind,
            start_time_unix_nano: start_time,
            end_time_unix_nano: end_time,
            attributes,
            status_code,
        },
    )
}

/// Conversion of an attribute value to OTLP, part of `encode_export_span` and
/// `attributes_json`: variant by variant (a double is read from its text by
/// `str::parse`; a text it refuses gives zero).
#[verifier::external_body]
fn to_any_value(v: &OtlpValue) -> AnyValue {
    let value = match v {
        OtlpValue::Str(s) => any_value::Value::StringValue(s.clone()),
        OtlpValue::Bool(b) => any_value::Value::BoolValue(*b),
        OtlpValue::Int(i) => any_value::Value::IntValue(*i),
        OtlpValue::Double(t) => any_value::Value::DoubleValue(t.parse().unwrap_or_default()),
        OtlpValue::Array(items) => any_value::Value::ArrayValue(ArrayValue { values: items.iter().map(to_any_value).collect() }),
    };
    AnyValue { value: Some(value) }
}

/// Conversion of attributes to OTLP key-values, in order, part of
/// `encode_export_span` and `attributes_json`.
#[verifier::external_body]
fn to_key_values(attrs: &Vec<OtlpAttr>) -> Vec<KeyValue> {
    attrs.iter().map(|a| KeyValue { key: a.key.clone(), value: Some(to_any_value(&a.value)), ..Default::default() }).collect()
}

/// Conversion of the span of an export span to OTLP, field by field, part of
/// `encode_export_span`: the ids are the bytes of their text, a missing parent
/// id is empty, the status has no message, every other field is prost's
/// default.
#[verifier::external_body]
fn to_span(e: &ExportSpan) -> Span {
    Span {
        trace_id: e.trace_id.as_bytes().to_vec(),
        span_id: e.span_id.as_bytes().to_vec(),
        parent_span_id: e.parent_span_id.as_ref().map(|p| p.as_bytes().to_vec()).unwrap_or_default(),
        name: e.name.clone(),
        kind: e.kind,
        start_time_unix_nano: e.start_time_unix_nano,
        end_time_unix_nano: e.end_time_unix_nano,
        attributes: to_key_values(&e.attributes),
        status: Some(Status { code: e.status_code, message: String::new() }),
        ..Default::default()
    }
}

/// Conversion of an export span to the OTLP request, part of
/// `encode_export_span`: one resource with one scope holding the span (see
/// `to_span`); schema URLs are empty.
#[verifier::external_body]
fn to_export_request(e: &ExportSpan) -> ExportTraceServiceRequest {
    let scope = InstrumentationScope { name: e.scope_name.clone(), version: e.scope_version.clone(), ..Default::default() };
    let resource = Resource { attributes: to_key_values(&e.resource_attributes), ..Default::default() };
    let scope_spans = ScopeSpans { scope: Some(scope), spans: vec![to_span(e)], schema_url: String::new() };
    ExportTraceServiceRequest {
        resource_spans: vec![ResourceSpans { resource: Some(resource), scope_spans: vec![scope_spans], schema_url: String::new() }],
    }
}

/// The bytes `prost` writes for the request of an export span.
pub uninterp spec fn encoded_export(e: ExportSpan) -> Seq<u8>;

/// `prost::Message::encode_to_vec` of the span's request (see
/// `to_export_request`); the bytes are named by `encoded_export`.
#[verifier::external_body]
pub(crate) fn encode_export_span(e: &ExportSpan) -> (r: Vec<u8>)
    ensures
        r@ == encoded_export(*e),
{
    to_export_request(e).encode_to_vec()
}

/// What `convert_span_to_otlp_protobuf` gives for a record: the bytes of the
/// request of its export span, or why it cannot be converted.
pub open spec fn protobuf_conversion(record: JsonValue, r: Result<Vec<u8>, ConversionError>) -> bool {
    match r {
        Ok(bytes) => conversion_failure(record) is None && exists|e: ExportSpan|
            #[trigger] export_of(record, e) && bytes@ == encoded_export(e),
        Err(err) => conversion_failure(record) == Some(err),
    }
}

/// Converts a raw JSON span record to a protobuf `ExportTraceServiceRequest`
/// holding that one span (see `export_of`); records that are not objects or
/// have no end time are refused.
pub fn convert_span_to_otlp_protobuf(record: JsonValue) -> (r: Result<Vec<u8>, ConversionError>)
    ensures
        protobuf_conversion(record, r),
{
    match span_export_of(&record) {
        Ok(e) => {
            let bytes = encode_export_span(&e);
            assert(export_of(record, e) && bytes@ == encoded_export(e));
            Ok(bytes)
        },
        Err(err) => Err(err),
    }
}

/// What `serde_json::to_value` makes of the OTLP key-values of these
/// attributes, or `None` when it fails.
pub uninterp spec fn key_values_json(attrs: Seq<OtlpAttr>) -> Option<JsonView>;

/// `serde_json::to_value` of the attributes' OTLP key-values (serialized as
/// `opentelemetry-proto` writes them), named by `key_values_json`. It does not
/// fail: `serde_json`'s value serializer refuses only map keys that are not
/// strings, non-finite float keys and out-of-range 128-bit integers, and the
/// key-values hold none of these (their maps are keyed by field and variant
/// names, and a double becomes a number or `null`).
#[verifier::external_body]
pub(crate) fn attributes_json(attrs: &Vec<OtlpAttr>) -> (r: Option<JsonValue>)
    ensures
        r is Some,
        match r {
            Some(j) => key_values_json(attrs@) == Some(json_view(j)),
            None => key_values_json(attrs@) is None,
        },
{
    serde_json::to_value(to_key_values(attrs)).ok().map(|v| from_serde_value(&v))
}

/// A JSON integer.
pub open spec fn int_json(i: i32) -> JsonView {
    if i >= 0 {
        JsonView::PosInt(i as u64)
    } else {
        JsonView::NegInt(i as i64)
    }
}

/// The OTLP JSON of the span's `spans` entry, keys in the order `serde_json`'s
/// map keeps them (sorted).
pub open spec fn span_json_view(e: ExportSpan, attrs: JsonView) -> JsonView {
    JsonView::Object(
        seq![
            ("attributes"@, attrs),
            ("droppedAttributesCount"@, JsonView::PosInt(0)),
            ("droppedEventsCount"@, JsonView::PosInt(0)),
            ("droppedLinksCount"@, JsonView::PosInt(0)),
            ("endTimeUnixNano"@, JsonView::PosInt(e.end_time_unix_nano)),
            ("events"@, JsonView::Array(Seq::empty())),
            ("kind"@, int_json(e.kind)),
            ("links"@, JsonView::Array(Seq::empty())),
            ("name"@, JsonView::Str(e.name@)),
            (
                "parentSpanId"@,
                match e.parent_span_id {
                    Some(p) => JsonView::Str(p@),
                    None => JsonView::Null,
                },
            ),
            ("spanId"@, JsonView::Str(e.span_id@)),
            ("startTimeUnixNano"@, JsonView::PosInt(e.start_time_unix_nano)),
            ("status"@, JsonView::Object(seq![("code"@, int_json(e.status_code))])),
            ("traceId"@, JsonView::Str(e.trace_id@)),
        ],
    )
}

/// The OTLP JSON request of an export span: one resource with one scope
/// holding the span.
pub open spec fn otlp_json_view(e: ExportSpan, resource_attrs: JsonView, attrs: JsonView) -> JsonView {
    let scope = JsonView::Object(
        seq![("name"@, JsonView::Str(e.scope_name@)), ("version"@, JsonView::Str(e.scope_version@))],
    );
    let scope_spans = JsonView::Object(
        seq![("scope"@, scope), ("spans"@, JsonView::Array(seq![span_json_view(e, attrs)]))],
    );
    let resource_spans = JsonView::Object(
        seq![
            ("resource"@, JsonView::Object(seq![("attributes"@, resource_attrs)])),
            ("scopeSpans"@, JsonView::Array(seq![scope_spans])),
        ],
    );
    JsonView::Object(seq![("resourceSpans"@, JsonView::Array(seq![resource_spans]))])
}

fn object_of(entries: Vec<(String, JsonValue)>) -> (r: JsonValue)
    ensures
        json_view(r) == JsonView::Object(entry_views(entries@, entries@.len() as int)),
        entry_views(entries@, entries@.len() as int).len() == entries@.len(),
        forall|i: int|
            0 <= i < entries@.len() ==> #[trigger] entry_views(entries@, entries@.len() as int)[i] == (
                entries@[i].0@,
                json_view(entries@[i].1),
            ),
{
    proof {
        lemma_entry_views(entries@, entries@.len() as int);
    }
    JsonValue::Object(entries)
}

fn array_of(items: Vec<JsonValue>) -> (r: JsonValue)
    ensures
        json_view(r) == JsonView::Array(item_views(items@, items@.len() as int)),
        item_views(items@, items@.len() as int).len() == items@.len(),
        forall|i: int|
            0 <= i < items@.len() ==> #[trigger] item_views(items@, items@.len() as int)[i] == json_view(
                items@[i],
            ),
{
    proof {
        lemma_item_views(items@, items@.len() as int);
    }
    JsonValue::Array(items)
}

fn entry(key: &str, v: JsonValue) -> (r: (String, JsonValue))
    ensures
        r.0@ == key@,
        r.1 == v,
{
    (String::from_str(key), v)
}

fn int_json_value(i: i32) -> (r: JsonValue)
    ensures
        json_view(r) == int_json(i),
{
    if i >= 0 {
        JsonValue::PosInt(i as u64)
    } else {
        JsonValue::NegInt(i as i64)
    }
}

fn str_json(s: &String) -> (r: JsonValue)
    ensures
        json_view(r) == JsonView::Str(s@),
{
    JsonValue::Str(s.clone())
}

/// The OTLP JSON of the span's `spans` entry (see `span_json_view`).
fn span_json(e: &ExportSpan, attrs: JsonValue) -> (r: JsonValue)
    ensures
        json_view(r) == span_json_view(*e, json_view(attrs)),
{
    let ghost av = json_view(attrs);
    let parent = match &e.parent_span_id {
        Some(p) => str_json(p),
        None => JsonValue::Null,
    };
    let mut status: Vec<(String, JsonValue)> = Vec::new();
    status.push(entry("code", int_json_value(e.status_code)));
    let ghost stv = status@;
    let status = object_of(status);
    assert(entry_views(stv, 1) =~= seq![("code"@, int_json(e.status_code))]);
    let mut sp: Vec<(String, JsonValue)> = Vec::new();
    sp.push(entry("attributes", attrs));
    sp.push(entry("droppedAttributesCount", JsonValue::PosInt(0)));
    sp.push(entry("droppedEventsCount", JsonValue::PosInt(0)));
    sp.push(entry("droppedLinksCount", JsonValue::PosInt(0)));
    sp.push(entry("endTimeUnixNano", JsonValue::PosInt(e.end_time_unix_nano)));
    sp.push(entry("events", array_of(Vec::new())));
    sp.push(entry("kind", int_json_value(e.kind)));
    sp.push(entry("links", array_of(Vec::new())));
    sp.push(entry("name", str_json(&e.name)));
    sp.push(entry("parentSpanId", parent));
    sp.push(entry("spanId", str_json(&e.span_id)));
    sp.push(entry("startTimeUnixNano", JsonValue::PosInt(e.start_time_unix_nano)));
    sp.push(entry("status", status));
    sp.push(entry("traceId", str_json(&e.trace_id)));
    let ghost spv = sp@;
    let r = object_of(sp);
    assert(entry_views(spv, 14) =~= match span_json_view(*e, av) {
        JsonView::Object(x) => x,
        _ => Seq::empty(),
    });
    r
}

/// What `convert_span_to_otlp` gives for a record: the OTLP JSON of its
/// export span, exactly when the record can be converted.
pub open spec fn json_conversion(record: JsonValue, r: Option<JsonValue>) -> bool {
    &&& r is Some <==> conversion_failure(record) is None
    &&& conversion_failure(record) is None ==> exists|e: ExportSpan|
        #[trigger] export_of(record, e) && match (
            key_values_json(e.resource_attributes@),
            key_values_json(e.attributes@),
        ) {
            (Some(ra), Some(sa)) => r matches Some(j) && json_view(j) == otlp_json_view(e, ra, sa),
            _ => r is None,
        }
}

/// The JSON and the protobuf conversions of a record succeed together; when
/// they do, the JSON holds the span of one export span of the record and the
/// protobuf bytes are the request of another, and the two agree on the start
/// and end times, the name, the kind and the status code.
pub proof fn lemma_json_and_protobuf_agree(
    record: JsonValue,
    json: Option<JsonValue>,
    bytes: Result<Vec<u8>, ConversionError>,
)
    requires
        json_conversion(record, json),
        protobuf_conversion(record, bytes),
    ensures
        json is Some <==> bytes is Ok,
        json matches Some(j) ==> exists|e1: ExportSpan, e2: ExportSpan, ra: JsonView, sa: JsonView|
            #![trigger export_of(record, e1), export_of(record, e2), otlp_json_view(e1, ra, sa)]
            export_of(record, e1) && export_of(record, e2) && json_view(j) == otlp_json_view(e1, ra, sa)
                && bytes->Ok_0@ == encoded_export(e2) && e1.end_time_unix_nano == e2.end_time_unix_nano
                && e1.name@ == e2.name@ && e1.kind == e2.kind && e1.status_code == e2.status_code
                && e1.start_time_unix_nano == e2.start_time_unix_nano,
{
    if let Some(j) = json {
        let e1 = choose|e: ExportSpan| #[trigger] export_of(record, e) && match (
            key_values_json(e.resource_attributes@),
            key_values_json(e.attributes@),
        ) {
            (Some(ra), Some(sa)) => json matches Some(j) && json_view(j) == otlp_json_view(e, ra, sa),
            _ => json is None,
        };
        let ra = key_values_json(e1.resource_attributes@)->Some_0;
        let sa = key_values_json(e1.attributes@)->Some_0;
        let b = bytes->Ok_0;
        let e2 = choose|e: ExportSpan| #[trigger] export_of(record, e) && b@ == encoded_export(e);
        assert(export_of(record, e1) && export_of(record, e2) && json_view(j) == otlp_json_view(e1, ra, sa));
    }
}

/// The field `key` of a JSON object.
pub open spec fn json_member(v: JsonView, key: Seq<char>) -> Option<JsonView> {
    match v {
        JsonView::Object(entries) => view_lookup(entries, key),
        _ => None,
    }
}

/// The first element of a JSON array.
pub open spec fn json_first(v: Option<JsonView>) -> Option<JsonView> {
    match v {
        Some(JsonView::Array(items)) => if items.len() > 0 {
            Some(items[0])
        } else {
            None
        },
        _ => None,
    }
}

/// The member `key` of an optional object.
pub open spec fn json_path(v: Option<JsonView>, key: Seq<char>) -> Option<JsonView> {
    match v {
        Some(x) => json_member(x, key),
        None => None,
    }
}

/// The span of an OTLP JSON request: `resourceSpans[0].scopeSpans[0].spans[0]`.
pub open spec fn request_span(request: JsonView) -> Option<JsonView> {
    json_first(
        json_path(
            json_first(json_path(json_first(json_member(request, "resourceSpans"@)), "scopeSpans"@)),
            "spans"@,
        ),
    )
}

proof fn lemma_lookup_at(entries: Seq<(Seq<char>, JsonView)>, key: Seq<char>, i: int)
    requires
        0 <= i < entries.len(),
        entries[i].0 == key,
        forall|j: int| 0 <= j < i ==> (#[trigger] entries[j]).0 != key,
    ensures
        view_lookup(entries, key) == Some(entries[i].1),
    decreases i,
{
    crate::json::lemma_view_key_index(entries, key);
    if i > 0 {
        let d = entries.drop_first();
        assert forall|j: int| 0 <= j < i - 1 implies (#[trigger] d[j]).0 != key by {
            assert(d[j] == entries[j + 1]);
        }
        lemma_lookup_at(d, key, i - 1);
        assert(entries[0].0 != key);
        crate::json::lemma_view_key_index(d, key);
    }
}

/// The JSON conversion of a record writes its span with the record's times and
/// name: `startTimeUnixNano` is the record's (0 when it has none),
/// `endTimeUnixNano` is the record's, and `name` is the record's (or
/// `UnnamedSpan`), and its trace and span ids are the record's text.
pub proof fn lemma_json_span_from_record(record: JsonValue, r: Option<JsonValue>)
    requires
        json_conversion(record, r),
        r is Some,
    ensures
        request_span(json_view(r->Some_0)) matches Some(span) && {
            &&& json_member(span, "startTimeUnixNano"@) == Some(
                JsonView::PosInt(
                    match u64_field(record, "startTimeUnixNano"@) {
                        Some(t) => t,
                        None => 0,
                    },
                ),
            )
            &&& json_member(span, "endTimeUnixNano"@) == Some(
                JsonView::PosInt(u64_field(record, "endTimeUnixNano"@)->Some_0),
            )
            &&& json_member(span, "name"@) == Some(
                JsonView::Str(text_or(str_field(record, "name"@), "UnnamedSpan"@)),
            )
            &&& json_member(span, "traceId"@) == Some(
                JsonView::Str(text_or(str_field(record, "traceId"@), Seq::empty())),
            )
            &&& json_member(span, "spanId"@) == Some(
                JsonView::Str(text_or(str_field(record, "spanId"@), Seq::empty())),
            )
        },
{
    reveal_strlit("resourceSpans");
    reveal_strlit("resource");
    reveal_strlit("scopeSpans");
    reveal_strlit("scope");
    reveal_strlit("spans");
    reveal_strlit("attributes");
    reveal_strlit("droppedAttributesCount");
    reveal_strlit("droppedEventsCount");
    reveal_strlit("droppedLinksCount");
    reveal_strlit("endTimeUnixNano");
    reveal_strlit("events");
    reveal_strlit("kind");
    reveal_strlit("links");
    reveal_strlit("name");
    reveal_strlit("parentSpanId");
    reveal_strlit("spanId");
    reveal_strlit("startTimeUnixNano");
    reveal_strlit("status");
    reveal_strlit("traceId");
    let j = r->Some_0;
    let e = choose|e: ExportSpan| #[trigger] export_of(record, e) && match (
        key_values_json(e.resource_attributes@),
        key_values_json(e.attributes@),
    ) {
        (Some(ra), Some(sa)) => r matches Some(j) && json_view(j) == otlp_json_view(e, ra, sa),
        _ => r is None,
    };
    let ra = key_values_json(e.resource_attributes@)->Some_0;
    let sa = key_values_json(e.attributes@)->Some_0;
    assert(json_view(j) == otlp_json_view(e, ra, sa));
    let span = span_json_view(e, sa);
    let scope = JsonView::Object(
        seq![("name"@, JsonView::Str(e.scope_name@)), ("version"@, JsonView::Str(e.scope_version@))],
    );
    let scope_spans_entries = seq![("scope"@, scope), ("spans"@, JsonView::Array(seq![span]))];
    let resource_entries = seq![
        ("resource"@, JsonView::Object(seq![("attributes"@, ra)])),
        ("scopeSpans"@, JsonView::Array(seq![JsonView::Object(scope_spans_entries)])),
    ];
    let top = seq![("resourceSpans"@, JsonView::Array(seq![JsonView::Object(resource_entries)]))];
    lemma_lookup_at(top, "resourceSpans"@, 0);
    assert("resource"@.len() != "scopeSpans"@.len());
    assert(resource_entries[0].0 != "scopeSpans"@);
    lemma_lookup_at(resource_entries, "scopeSpans"@, 1);
    assert("scope"@[1] != "spans"@[1]);
    assert(scope_spans_entries[0].0 != "spans"@);
    lemma_lookup_at(scope_spans_entries, "spans"@, 1);
    assert(request_span(json_view(j)) == Some(span));
    assert("attributes"@.len() == 10);
    assert("droppedAttributesCount"@.len() == 22);
    assert("droppedEventsCount"@.len() == 18);
    assert("droppedLinksCount"@.len() == 17);
    assert("endTimeUnixNano"@.len() == 15);
    assert("events"@.len() == 6);
    assert("kind"@.len() == 4);
    assert("links"@.len() == 5);
    assert("name"@.len() == 4);
    assert("parentSpanId"@.len() == 12);
    assert("spanId"@.len() == 6);
    assert("startTimeUnixNano"@.len() == 17);
    assert("status"@.len() == 6);
    assert("traceId"@.len() == 7);
    assert("droppedLinksCount"@[0] != "startTimeUnixNano"@[0]);
    assert("kind"@[0] != "name"@[0]);
    assert("events"@[0] != "spanId"@[0]);
    let se = match span {
        JsonView::Object(x) => x,
        _ => Seq::empty(),
    };
    assert(se[0].0 != "startTimeUnixNano"@);
    assert(se[1].0 != "startTimeUnixNano"@);
    assert(se[2].0 != "startTimeUnixNano"@);
    assert(se[3].0 != "startTimeUnixNano"@);
    assert(se[4].0 != "startTimeUnixNano"@);
    assert(se[5].0 != "startTimeUnixNano"@);
    assert(se[6].0 != "startTimeUnixNano"@);
    assert(se[7].0 != "startTimeUnixNano"@);
    assert(se[8].0 != "startTimeUnixNano"@);
    assert(se[9].0 != "startTimeUnixNano"@);
    assert(se[10].0 != "startTimeUnixNano"@);
    lemma_lookup_at(se, "startTimeUnixNano"@, 11);
    assert(se[0].0 != "endTimeUnixNano"@);
    assert(se[1].0 != "endTimeUnixNano"@);
    assert(se[2].0 != "endTimeUnixNano"@);
    assert(se[3].0 != "endTimeUnixNano"@);
    lemma_lookup_at(se, "endTimeUnixNano"@, 4);
    assert(se[0].0 != "name"@);
    assert(se[1].0 != "name"@);
    assert(se[2].0 != "name"@);
    assert(se[3].0 != "name"@);
    assert(se[4].0 != "name"@);
    assert(se[5].0 != "name"@);
    assert(se[6].0 != "name"@);
    assert(se[7].0 != "name"@);
    lemma_lookup_at(se, "name"@, 8);
    assert(se[0].0 != "spanId"@);
    assert(se[1].0 != "spanId"@);
    assert(se[2].0 != "spanId"@);
    assert(se[3].0 != "spanId"@);
    assert(se[4].0 != "spanId"@);
    assert(se[5].0 != "spanId"@);
    assert(se[6].0 != "spanId"@);
    assert(se[7].0 != "spanId"@);
    assert(se[8].0 != "spanId"@);
    assert(se[9].0 != "spanId"@);
    lemma_lookup_at(se, "spanId"@, 10);
    assert(se[0].0 != "traceId"@);
    assert(se[1].0 != "traceId"@);
    assert(se[2].0 != "traceId"@);
    assert(se[3].0 != "traceId"@);
    assert(se[4].0 != "traceId"@);
    assert(se[5].0 != "traceId"@);
    assert(se[6].0 != "traceId"@);
    assert(se[7].0 != "traceId"@);
    assert(se[8].0 != "traceId"@);
    assert(se[9].0 != "traceId"@);
    assert(se[10].0 != "traceId"@);
    assert(se[11].0 != "traceId"@);
    assert(se[12].0 != "traceId"@);
    lemma_lookup_at(se, "traceId"@, 13);
}

/// Converts a raw JSON span record to the OTLP JSON request holding that one
/// span (see `json_conversion`); `None` for records the protobuf conversion
/// refuses (see `conversion_failure`).
pub fn convert_span_to_otlp(record: JsonValue) -> (r: Option<JsonValue>)
    ensures
        json_conversion(record, r),
{
    let e = match span_export_of(&record) {
        Ok(e) => e,
        Err(_) => return None,
    };
    let ra = match attributes_json(&e.resource_attributes) {
        Some(j) => j,
        None => return None,
    };
    let sa = match attributes_json(&e.attributes) {
        Some(j) => j,
        None => return None,
    };
    let ghost rav = json_view(ra);
    let ghost sav = json_view(sa);
    let span = span_json(&e, sa);
    let ghost span_v = span_json_view(e, sav);
    let mut spans: Vec<JsonValue> = Vec::new();
    spans.push(span);
    let ghost v1 = spans@;
    let spans = array_of(spans);
    assert(item_views(v1, 1) =~= seq![span_v]);
    let mut scope: Vec<(String, JsonValue)> = Vec::new();
    scope.push(entry("name", str_json(&e.scope_name)));
    scope.push(entry("version", str_json(&e.scope_version)));
    let ghost v2 = scope@;
    let scope = object_of(scope);
    let ghost scope_v = JsonView::Object(
        seq![("name"@, JsonView::Str(e.scope_name@)), ("version"@, JsonView::Str(e.scope_version@))],
    );
    assert(entry_views(v2, 2) =~= seq![("name"@, JsonView::Str(e.scope_name@)), ("version"@, JsonView::Str(e.scope_version@))]);
    let mut ss: Vec<(String, JsonValue)> = Vec::new();
    ss.push(entry("scope", scope));
    ss.push(entry("spans", spans));
    let ghost v3 = ss@;
    let ss = object_of(ss);
    let ghost ss_v = JsonView::Object(seq![("scope"@, scope_v), ("spans"@, JsonView::Array(seq![span_v]))]);
    assert(entry_views(v3, 2) =~= seq![("scope"@, scope_v), ("spans"@, JsonView::Array(seq![span_v]))]);
    let mut ss_list: Vec<JsonValue> = Vec::new();
    ss_list.push(ss);
    let ghost v4 = ss_list@;
    let ss_list = array_of(ss_list);
    assert(item_views(v4, 1) =~= seq![ss_v]);
    let mut res: Vec<(String, JsonValue)> = Vec::new();
    res.push(entry("attributes", ra));
    let ghost v5 = res@;
    let res = object_of(res);
    assert(entry_views(v5, 1) =~= seq![("attributes"@, rav)]);
    let mut rs: Vec<(String, JsonValue)> = Vec::new();
    rs.push(entry("resource", res));
    rs.push(entry("scopeSpans", ss_list));
    let ghost v6 = rs@;
    let rs = object_of(rs);
    let ghost rs_v = JsonView::Object(
        seq![
            ("resource"@, JsonView::Object(seq![("attributes"@, rav)])),
            ("scopeSpans"@, JsonView::Array(seq![ss_v])),
        ],
    );
    assert(entry_views(v6, 2) =~= seq![
        ("resource"@, JsonView::Object(seq![("attributes"@, rav)])),
        ("scopeSpans"@, JsonView::Array(seq![ss_v])),
    ]);
    let mut rs_list: Vec<JsonValue> = Vec::new();
    rs_list.push(rs);
    let ghost v7 = rs_list@;
    let rs_list = array_of(rs_list);
    assert(item_views(v7, 1) =~= seq![rs_v]);
    let mut top: Vec<(String, JsonValue)> = Vec::new();
    top.push(entry("resourceSpans", rs_list));
    let ghost v8 = top@;
    let top = object_of(top);
    assert(entry_views(v8, 1) =~= seq![("resourceSpans"@, JsonView::Array(seq![rs_v]))]);
    assert(json_view(top) == otlp_json_view(e, rav, sav));
    Some(top)
}

/// Converts a log message holding one raw JSON span record to the OTLP JSON
/// request of that span (see `json_conversion`); `None` when the message is
/// not JSON or the record cannot be converted.
pub fn convert_span_message(message: &str) -> (r: Option<JsonValue>)
    ensures
        match parsed_json(message@) {
            Err(_) => r is None,
            Ok(view) => exists|record: JsonValue| #[trigger] json_view(record) == view && json_conversion(record, r),
        },
{
    match parse_json_text(message) {
        Ok(record) => {
            let ghost rv = record;
            let r = convert_span_to_otlp(record);
            assert(json_view(rv) == parsed_json(message@)->Ok_0 && json_conversion(rv, r));
            r
        },
        Err(_) => None,
    }
}

} // verus!
