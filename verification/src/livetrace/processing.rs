//! Turning the log lines that `otlp-stdout-span-exporter` writes into OTLP
//! protobuf payloads, and merging the payloads of one trace into a single
//! gzipped request.
use vstd::prelude::*;
use vstd::string::*;
use vstd::utf8::encode_utf8;
use base64::Engine;
use opentelemetry_proto::tonic::collector::trace::v1::ExportTraceServiceRequest;
use prost::Message;
use std::io::{Read, Write};
use crate::text::str_eq;
use crate::livetrace::otlp::{
    decode_trace_request, decoded_trace_records, decodes_back, request_contents, trace_request_bytes,
    trace_request_span_ids, ResourceRecord,
};

verus! {

/// A processed OTLP payload, ready to be compacted or sent.
pub struct TelemetryData {
    pub payload: Vec<u8>,
    pub original_endpoint: String,
    pub original_source: String,
}

pub struct TelemetryView {
    pub payload: Seq<u8>,
    pub endpoint: Seq<char>,
    pub source: Seq<char>,
}

impl View for TelemetryData {
    type V = TelemetryView;

    open spec fn view(&self) -> TelemetryView {
        TelemetryView {
            payload: self.payload@,
            endpoint: self.original_endpoint@,
            source: self.original_source@,
        }
    }
}

impl Clone for TelemetryData {
    fn clone(&self) -> (r: Self)
        ensures
            r@ == self@,
    {
        let payload = self.payload.clone();
        assert(payload@ =~= self.payload@);
        TelemetryData {
            payload,
            original_endpoint: self.original_endpoint.clone(),
            original_source: self.original_source.clone(),
        }
    }
}

/// How hard the compacted payload is compressed (a gzip level).
#[derive(Debug, Clone, Copy)]
pub struct SpanCompactionConfig {
    pub compression_level: u32,
}

impl Default for SpanCompactionConfig {
    fn default() -> (r: Self)
        ensures
            r.compression_level == 6,
    {
        SpanCompactionConfig { compression_level: 6 }
    }
}

/// Why a log message or a batch could not be turned into a payload.
pub enum ProcessingError {
    Base64Payload,
    Decompression,
    ProtobufPayload,
    JsonPayload,
    UnknownContentType { content_type: String },
    /// The payload of a log message could not be converted to protobuf, for
    /// this cause.
    PayloadConversion { cause: Box<ProcessingError> },
    Compression,
    EmptyBatch,
    NothingDecoded,
}

/// `ProcessingError` with its text taken by view.
pub enum ProcessingFailure {
    Base64Payload,
    Decompression,
    ProtobufPayload,
    JsonPayload,
    UnknownContentType(Seq<char>),
    PayloadConversion(Box<ProcessingFailure>),
    Compression,
    EmptyBatch,
    NothingDecoded,
}

/// The text of an error: the context the processing gives it, followed, for a
/// failed conversion, by the text of its cause.
pub open spec fn failure_text(f: ProcessingFailure) -> Seq<char>
    decreases f,
{
    match f {
        ProcessingFailure::Base64Payload => "Failed to decode base64 payload"@,
        ProcessingFailure::Decompression => "Failed to decompress Gzip payload"@,
        ProcessingFailure::ProtobufPayload => "Payload has content-type protobuf but failed to decode"@,
        ProcessingFailure::JsonPayload => "Failed to parse JSON as ExportTraceServiceRequest"@,
        ProcessingFailure::UnknownContentType(content_type) => "Payload has unknown content-type '"@
            + content_type + "' and failed to decode as protobuf"@,
        ProcessingFailure::PayloadConversion(cause) => "Failed to convert payload to protobuf: "@
            + failure_text(*cause),
        ProcessingFailure::Compression => "Failed to compress payload"@,
        ProcessingFailure::EmptyBatch => "Cannot compact an empty batch"@,
        ProcessingFailure::NothingDecoded => "All payloads in the batch failed to decode"@,
    }
}

impl ProcessingError {
    pub open spec fn failure(&self) -> ProcessingFailure
        decreases self,
    {
        match self {
            ProcessingError::Base64Payload => ProcessingFailure::Base64Payload,
            ProcessingError::Decompression => ProcessingFailure::Decompression,
            ProcessingError::ProtobufPayload => ProcessingFailure::ProtobufPayload,
            ProcessingError::JsonPayload => ProcessingFailure::JsonPayload,
            ProcessingError::UnknownContentType { content_type } => ProcessingFailure::UnknownContentType(
                content_type@,
            ),
            ProcessingError::PayloadConversion { cause } => ProcessingFailure::PayloadConversion(
                Box::new(cause.failure()),
            ),
            ProcessingError::Compression => ProcessingFailure::Compression,
            ProcessingError::EmptyBatch => ProcessingFailure::EmptyBatch,
            ProcessingError::NothingDecoded => ProcessingFailure::NothingDecoded,
        }
    }

    /// The error message (see `failure_text`).
    pub fn message(&self) -> (r: String)
        ensures
            r@ == failure_text(self.failure()),
        decreases self,
    {
        match self {
            ProcessingError::Base64Payload => String::from_str("Failed to decode base64 payload"),
            ProcessingError::Decompression => String::from_str("Failed to decompress Gzip payload"),
            ProcessingError::ProtobufPayload => String::from_str(
                "Payload has content-type protobuf but failed to decode",
            ),
            ProcessingError::JsonPayload => String::from_str(
                "Failed to parse JSON as ExportTraceServiceRequest",
            ),
            ProcessingError::UnknownContentType { content_type } => {
                let mut m = String::from_str("Payload has unknown content-type '");
                m.append(content_type.as_str());
                m.append("' and failed to decode as protobuf");
                m
            },
            ProcessingError::PayloadConversion { cause } => {
                let inner = cause.message();
                let mut m = String::from_str("Failed to convert payload to protobuf: ");
                m.append(inner.as_str());
                m
            },
            ProcessingError::Compression => String::from_str("Failed to compress payload"),
            ProcessingError::EmptyBatch => String::from_str("Cannot compact an empty batch"),
            ProcessingError::NothingDecoded => String::from_str(
                "All payloads in the batch failed to decode",
            ),
        }
    }
}

/// `prost::Message::encode_to_vec`, named by `trace_request_bytes`. Prost
/// decodes what it encodes back to the same message, so bytes that decode give
/// the request's contents; decoding them can fail for a request nested deeper
/// than prost's decoding recursion limit, so that they decode is not stated.
#[verifier::external_body]
fn encode_trace_request(request: &ExportTraceServiceRequest) -> (r: Vec<u8>)
    ensures
        r@ == trace_request_bytes(*request),
        decoded_trace_records(r@) is Some ==> decoded_trace_records(r@) == Some(request_contents(*request)),
{
    request.encode_to_vec()
}

/// `Vec::extend` on the `resource_spans` of two requests: the spans of `from`
/// are added after those of `into`. A request has no other field
/// (`resource_spans`, tag 1, repeated), so prost writes the joined request as
/// the bytes of the one followed by those of the other, and decoding such
/// bytes appends the repeated field, nesting no deeper than either part: when
/// both parts decode back, so does the joined request.
#[verifier::external_body]
fn append_resource_spans(into: &mut ExportTraceServiceRequest, from: ExportTraceServiceRequest)
    ensures
        request_contents(*final(into)) == request_contents(*old(into)) + request_contents(from),
        decodes_back(*old(into)) && decodes_back(from) ==> decodes_back(*final(into)),
{
    into.resource_spans.extend(from.resource_spans);
}

/// The contents of the `ExportTraceServiceRequest` that `serde_json::from_slice`
/// reads from these bytes, or `None` when it rejects them.
pub uninterp spec fn json_trace_records(bytes: Seq<u8>) -> Option<Seq<ResourceRecord>>;

/// `serde_json::from_slice::<ExportTraceServiceRequest>`; what the request holds
/// is named by `json_trace_records`.
#[verifier::external_body]
fn parse_json_trace_request(bytes: &[u8]) -> (r: Option<ExportTraceServiceRequest>)
    ensures
        match r {
            Some(request) => json_trace_records(bytes@) == Some(request_contents(request)),
            None => json_trace_records(bytes@) is None,
        },
{
    serde_json::from_slice::<ExportTraceServiceRequest>(bytes).ok()
}

/// What `flate2::read::GzDecoder` reads to the end from these bytes, or `None`
/// when it reports an error.
pub uninterp spec fn gunzipped(data: Seq<u8>) -> Option<Seq<u8>>;

/// `GzDecoder::new(..).read_to_end(..)`, named by `gunzipped`.
#[verifier::external_body]
fn gunzip(data: &[u8]) -> (r: Option<Vec<u8>>)
    ensures
        match r {
            Some(v) => gunzipped(data@) == Some(v@),
            None => gunzipped(data@) is None,
        },
{
    let mut out = Vec::new();
    match flate2::read::GzDecoder::new(data).read_to_end(&mut out) {
        Ok(_) => Some(out),
        Err(_) => None,
    }
}

/// The gzip stream that `flate2::write::GzEncoder` writes for these bytes at
/// this level, or `None` when it reports an error.
pub uninterp spec fn gzip_compressed(data: Seq<u8>, level: u32) -> Option<Seq<u8>>;

/// Gzip-compresses a payload with `flate2::write::GzEncoder` (`new`,
/// `write_all`, `finish`); the result is named by `gzip_compressed`. The stream
/// it writes is one gzip member holding the payload, which `GzDecoder` reads
/// back to the payload. It succeeds: the writer is a `Vec`, which takes every
/// write, and the deflate backend (zlib-rs, as zlib documents `deflate`) fails
/// only on an inconsistent stream state, which `GzEncoder` does not produce.
/// Levels above 9 are left out: this build's backend, zlib-rs, asserts on them
/// in debug builds.
#[verifier::external_body]
pub fn compress_payload(payload: &[u8], level: u32) -> (r: Result<Vec<u8>, ProcessingError>)
    requires
        level <= 9,
    ensures
        match r {
            Ok(v) => gzip_compressed(payload@, level) == Some(v@) && gunzipped(v@) == Some(payload@),
            Err(_) => false,
        },
{
    let mut encoder = flate2::write::GzEncoder::new(Vec::new(), flate2::Compression::new(level));
    match encoder.write_all(payload) {
        Ok(()) => {},
        Err(_) => return Err(ProcessingError::Compression),
    }
    match encoder.finish() {
        Ok(v) => Ok(v),
        Err(_) => Err(ProcessingError::Compression),
    }
}

/// What `base64`'s standard engine decodes from this text, or `None` when it
/// rejects it.
pub uninterp spec fn base64_standard_decoded(text: Seq<char>) -> Option<Seq<u8>>;

/// `base64::engine::general_purpose::STANDARD.decode`, named by
/// `base64_standard_decoded`.
#[verifier::external_body]
pub(crate) fn base64_decode(text: &str) -> (r: Option<Vec<u8>>)
    ensures
        match r {
            Some(v) => base64_standard_decoded(text@) == Some(v@),
            None => base64_standard_decoded(text@) is None,
        },
{
    base64::engine::general_purpose::STANDARD.decode(text).ok()
}

/// The fields of an `otlp_stdout_span_exporter::ExporterOutput` that the
/// processing reads.
pub struct ExporterRecord {
    pub version: String,
    pub source: String,
    pub endpoint: String,
    pub content_type: String,
    pub content_encoding: String,
    pub payload: String,
    pub base64: bool,
}

pub struct ExporterRecordView {
    pub version: Seq<char>,
    pub source: Seq<char>,
    pub endpoint: Seq<char>,
    pub content_type: Seq<char>,
    pub content_encoding: Seq<char>,
    pub payload: Seq<char>,
    pub base64: bool,
}

impl View for ExporterRecord {
    type V = ExporterRecordView;

    open spec fn view(&self) -> ExporterRecordView {
        ExporterRecordView {
            version: self.version@,
            source: self.source@,
            endpoint: self.endpoint@,
            content_type: self.content_type@,
            content_encoding: self.content_encoding@,
            payload: self.payload@,
            base64: self.base64,
        }
    }
}

/// The record that `serde_json::from_str::<ExporterOutput>` reads from a log
/// message, or `None` when the message is not such JSON.
pub uninterp spec fn exporter_record_of(message: Seq<char>) -> Option<ExporterRecordView>;

/// `serde_json::from_str::<ExporterOutput>`, keeping the fields that the
/// processing reads; named by `exporter_record_of`.
#[verifier::external_body]
fn parse_exporter_output(message: &str) -> (r: Option<ExporterRecord>)
    ensures
        match r {
            Some(x) => exporter_record_of(message@) == Some(x@),
            None => exporter_record_of(message@) is None,
        },
{
    match serde_json::from_str::<otlp_stdout_span_exporter::ExporterOutput>(message) {
        Ok(o) => Some(
            ExporterRecord {
                version: o.version,
                source: o.source,
                endpoint: o.endpoint,
                content_type: o.content_type,
                content_encoding: o.content_encoding,
                payload: o.payload,
                base64: o.base64,
            },
        ),
        Err(_) => None,
    }
}

/// The outcome of turning a payload into uncompressed OTLP protobuf.
pub enum Conversion {
    /// The bytes are kept as they are (after decompression).
    Kept(Seq<u8>),
    /// The bytes are JSON holding these records, and are encoded anew as
    /// protobuf.
    FromJson(Seq<ResourceRecord>),
    Failed(ProcessingFailure),
}

/// Decompresses a gzip payload, then checks or converts it by content type:
/// protobuf must decode; JSON is parsed and encoded as protobuf; any other type
/// is tried as protobuf.
pub open spec fn conversion(
    payload: Seq<u8>,
    content_type: Seq<char>,
    content_encoding: Option<Seq<char>>,
) -> Conversion {
    let decompressed = if content_encoding == Some("gzip"@) {
        gunzipped(payload)
    } else {
        Some(payload)
    };
    match decompressed {
        None => Conversion::Failed(ProcessingFailure::Decompression),
        Some(d) => if content_type == "application/x-protobuf"@ {
            if trace_request_span_ids(d) is Some {
                Conversion::Kept(d)
            } else {
                Conversion::Failed(ProcessingFailure::ProtobufPayload)
            }
        } else if content_type == "application/json"@ {
            match json_trace_records(d) {
                Some(records) => Conversion::FromJson(records),
                None => Conversion::Failed(ProcessingFailure::JsonPayload),
            }
        } else if trace_request_span_ids(d) is Some {
            Conversion::Kept(d)
        } else {
            Conversion::Failed(ProcessingFailure::UnknownContentType(content_type))
        },
    }
}

/// Whether a result of `convert_to_protobuf` is the outcome `c`.
pub open spec fn converted_as(r: Result<Vec<u8>, ProcessingError>, c: Conversion) -> bool {
    match c {
        Conversion::Kept(d) => r is Ok && r->Ok_0@ == d,
        Conversion::FromJson(records) => r is Ok && (exists|request: ExportTraceServiceRequest|
            #![trigger request_contents(request)]
            request_contents(request) == records && r->Ok_0@ == trace_request_bytes(request)) && (
        decoded_trace_records(r->Ok_0@) is Some ==> decoded_trace_records(r->Ok_0@) == Some(records)),
        Conversion::Failed(f) => r is Err && r->Err_0.failure() == f,
    }
}

/// Converts a payload to uncompressed OTLP protobuf (see `conversion`).
pub fn convert_to_protobuf(payload: Vec<u8>, content_type: &str, content_encoding: Option<&str>) -> (r:
    Result<Vec<u8>, ProcessingError>)
    ensures
        converted_as(
            r,
            conversion(
                payload@,
                content_type@,
                match content_encoding {
                    Some(e) => Some(e@),
                    None => None,
                },
            ),
        ),
{
    let gzip = match content_encoding {
        Some(e) => str_eq(e, "gzip"),
        None => false,
    };
    proof {
        reveal_strlit("gzip");
    }
    let decompressed = if gzip {
        match gunzip(payload.as_slice()) {
            Some(d) => d,
            None => {
                return Err(ProcessingError::Decompression);
            },
        }
    } else {
        payload
    };
    if str_eq(content_type, "application/x-protobuf") {
        if decode_trace_request(decompressed.as_slice()).is_some() {
            Ok(decompressed)
        } else {
            Err(ProcessingError::ProtobufPayload)
        }
    } else if str_eq(content_type, "application/json") {
        match parse_json_trace_request(decompressed.as_slice()) {
            Some(request) => {
                let bytes = encode_trace_request(&request);
                assert(request_contents(request) == json_trace_records(decompressed@)->Some_0);
                Ok(bytes)
            },
            None => Err(ProcessingError::JsonPayload),
        }
    } else if decode_trace_request(decompressed.as_slice()).is_some() {
        Ok(decompressed)
    } else {
        Err(ProcessingError::UnknownContentType { content_type: String::from_str(content_type) })
    }
}

/// The bytes carried by a record: base64-decoded when it says so, else the
/// UTF-8 bytes of the text.
pub open spec fn record_bytes(rec: ExporterRecordView) -> Option<Seq<u8>> {
    if rec.base64 {
        base64_standard_decoded(rec.payload)
    } else {
        Some(encode_utf8(rec.payload))
    }
}

/// Whether a log message is skipped: not exporter JSON, or without a version
/// or a payload.
pub open spec fn message_skipped(message: Seq<char>) -> bool {
    match exporter_record_of(message) {
        None => true,
        Some(rec) => rec.version.len() == 0 || rec.payload.len() == 0,
    }
}

/// Processes one log message: messages that are not exporter output are
/// skipped (`Ok(None)`); otherwise the payload is decoded, decompressed and
/// converted, and keeps the record's endpoint and source.
pub fn process_log_event_message(message: &str) -> (r: Result<Option<TelemetryData>, ProcessingError>)
    ensures
        message_skipped(message@) <==> r == Ok::<Option<TelemetryData>, ProcessingError>(None),
        !message_skipped(message@) ==> ({
            let rec = exporter_record_of(message@)->Some_0;
            match record_bytes(rec) {
                None => r is Err && r->Err_0.failure() == ProcessingFailure::Base64Payload,
                Some(raw) => {
                    let c = conversion(raw, rec.content_type, Some(rec.content_encoding));
                    match r {
                        Ok(Some(t)) => t.original_endpoint@ == rec.endpoint
                            && t.original_source@ == rec.source && converted_as(
                            Ok(t.payload),
                            c,
                        ),
                        Ok(None) => false,
                        Err(e) => e matches ProcessingError::PayloadConversion { cause } && converted_as(
                            Err(*cause),
                            c,
                        ),
                    }
                },
            }
        }),
{
    let record = match parse_exporter_output(message) {
        Some(rec) => rec,
        None => {
            return Ok(None);
        },
    };
    if record.version.unicode_len() == 0 || record.payload.unicode_len() == 0 {
        return Ok(None);
    }
    let raw = if record.base64 {
        match base64_decode(record.payload.as_str()) {
            Some(bytes) => bytes,
            None => {
                return Err(ProcessingError::Base64Payload);
            },
        }
    } else {
        record.payload.as_str().as_bytes_vec()
    };
    let ghost rec = record@;
    let converted = convert_to_protobuf(
        raw,
        record.content_type.as_str(),
        Some(record.content_encoding.as_str()),
    );
    match converted {
        Ok(payload) => Ok(
            Some(
                TelemetryData {
                    payload,
                    original_endpoint: record.endpoint,
                    original_source: record.source,
                },
            ),
        ),
        Err(e) => Err(ProcessingError::PayloadConversion { cause: Box::new(e) }),
    }
}

/// Whether some payload of the batch decodes as an OTLP trace request.
pub open spec fn some_payload_decodes(batch: Seq<TelemetryData>, upto: int) -> bool {
    exists|j: int| 0 <= j < upto && trace_request_span_ids(#[trigger] batch[j].payload@) is Some
}

/// The records of the payloads of the first `n` items that decode, in batch
/// order.
pub open spec fn merged_records(batch: Seq<TelemetryData>, n: int) -> Seq<ResourceRecord>
    decreases n,
{
    if n <= 0 {
        Seq::empty()
    } else {
        let before = merged_records(batch, n - 1);
        match decoded_trace_records(batch[n - 1].payload@) {
            Some(r) => before + r,
            None => before,
        }
    }
}

proof fn lemma_nothing_merged(batch: Seq<TelemetryData>, n: int)
    requires
        0 <= n <= batch.len(),
        !some_payload_decodes(batch, n),
    ensures
        merged_records(batch, n) == Seq::<ResourceRecord>::empty(),
    decreases n,
{
    if n > 0 {
        assert(!(trace_request_span_ids(batch[n - 1].payload@) is Some));
        assert(!some_payload_decodes(batch, n - 1)) by {
            if some_payload_decodes(batch, n - 1) {
                let j = choose|j: int| 0 <= j < n - 1 && trace_request_span_ids(#[trigger] batch[j].payload@) is Some;
                assert(0 <= j < n && trace_request_span_ids(batch[j].payload@) is Some);
            }
        }
        lemma_nothing_merged(batch, n - 1);
    }
}

/// Whether `t` is the first item of the batch with its payload replaced by the
/// gzip stream of `bytes`, which inflates back to `bytes`.
pub open spec fn compacted_from(t: TelemetryView, first: TelemetryView, bytes: Seq<u8>, level: u32) -> bool {
    &&& gzip_compressed(bytes, level) == Some(t.payload)
    &&& gunzipped(t.payload) == Some(bytes)
    &&& t.endpoint == first.endpoint
    &&& t.source == first.source
}

/// Merges the payloads of one trace into one gzipped OTLP request. A single
/// payload is only compressed. Several are decoded, those that fail to decode
/// are skipped, and the resource spans of the others are put into one request
/// in batch order (see `merged_records`), which is encoded and compressed. The
/// endpoint and source are those of the first item.
pub fn compact_telemetry_payloads(batch: Vec<TelemetryData>, config: &SpanCompactionConfig) -> (r:
    Result<TelemetryData, ProcessingError>)
    requires
        config.compression_level <= 9,
    ensures
        batch@.len() == 0 <==> (r is Err && r->Err_0 is EmptyBatch),
        batch@.len() == 1 ==> r is Ok && compacted_from(
            r->Ok_0@,
            batch@[0]@,
            batch@[0].payload@,
            config.compression_level,
        ),
        batch@.len() > 1 ==> (!some_payload_decodes(batch@, batch@.len() as int) <==> (r is Err
            && r->Err_0 is NothingDecoded)),
        batch@.len() > 1 && some_payload_decodes(batch@, batch@.len() as int) ==> exists|
            request: ExportTraceServiceRequest,
        |
            #![trigger request_contents(request)]
            request_contents(request) == merged_records(batch@, batch@.len() as int)
                && decodes_back(request)
                && r is Ok && compacted_from(
                r->Ok_0@,
                batch@[0]@,
                trace_request_bytes(request),
                config.compression_level,
            ),
{
    let level = config.compression_level;
    if batch.len() == 0 {
        return Err(ProcessingError::EmptyBatch);
    }
    if batch.len() == 1 {
        let item = &batch[0];
        return match compress_payload(item.payload.as_slice(), level) {
            Ok(payload) => Ok(
                TelemetryData {
                    payload,
                    original_endpoint: item.original_endpoint.clone(),
                    original_source: item.original_source.clone(),
                },
            ),
            Err(e) => Err(e),
        };
    }
    let mut merged: Option<ExportTraceServiceRequest> = None;
    let mut i: usize = 0;
    while i < batch.len()
        invariant
            i <= batch@.len(),
            merged is Some <==> some_payload_decodes(batch@, i as int),
            merged matches Some(m) ==> request_contents(m) == merged_records(batch@, i as int) && decodes_back(m),
        decreases batch@.len() - i,
    {
        let decoded = decode_trace_request(batch[i].payload.as_slice());
        if let Some((request, _)) = decoded {
            merged = match merged {
                None => {
                    proof {
                        lemma_nothing_merged(batch@, i as int);
                        assert(Seq::<ResourceRecord>::empty() + request_contents(request) =~= request_contents(request));
                    }
                    Some(request)
                },
                Some(mut m) => {
                    append_resource_spans(&mut m, request);
                    Some(m)
                },
            };
        }
        proof {
            if trace_request_span_ids(batch@[i as int].payload@) is Some {
                assert(some_payload_decodes(batch@, i + 1));
            }
            if some_payload_decodes(batch@, i + 1) && !some_payload_decodes(batch@, i as int) {
                let j = choose|j: int|
                    0 <= j < i + 1 && trace_request_span_ids(#[trigger] batch@[j].payload@) is Some;
                assert(j == i);
            }
        }
        i = i + 1;
    }
    match merged {
        None => Err(ProcessingError::NothingDecoded),
        Some(request) => {
            let bytes = encode_trace_request(&request);
            match compress_payload(bytes.as_slice(), level) {
                Ok(payload) => {
                    let t = TelemetryData {
                        payload,
                        original_endpoint: batch[0].original_endpoint.clone(),
                        original_source: batch[0].original_source.clone(),
                    };
                    assert(compacted_from(t@, batch@[0]@, bytes@, config.compression_level));
                    let r: Result<TelemetryData, ProcessingError> = Ok(t);
                    assert(r->Ok_0@ == t@);
                    assert(request_contents(request) == merged_records(batch@, batch@.len() as int));
                    r
                },
                Err(e) => Err(e),
            }
        },
    }
}

} // verus!
