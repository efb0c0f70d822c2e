//! The payload the batch benchmark runner sends when it invokes a function:
//! the given JSON with the trace context of the invocation as its `headers`.
use vstd::prelude::*;
use vstd::string::*;
use crate::json::{json_view, parse_json_text, parsed_json, set_entry, set_entries_spec, set_entry_spec, entries_view, JsonValue, JsonView};
use crate::startled::invoke::{empty_object, header_entry, lemma_set_entries_concat, set_header, TraceHeaders};

verus! {

/// The `traceparent` and `tracestate` headers present, as JSON entries.
pub open spec fn benchmark_context_entries(h: TraceHeaders) -> Seq<(Seq<char>, JsonView)> {
    header_entry("traceparent"@, h.traceparent) + header_entry("tracestate"@, h.tracestate)
}

/// The payload with its `headers` entry replaced by the trace context, when
/// `traceparent` is present and the payload is an object; as it is otherwise.
pub open spec fn with_benchmark_trace_context(payload: JsonView, h: TraceHeaders) -> JsonView {
    if h.traceparent is Some {
        match payload {
            JsonView::Object(entries) => JsonView::Object(
                set_entry_spec(
                    entries,
                    "headers"@,
                    JsonView::Object(set_entries_spec(Seq::empty(), benchmark_context_entries(h))),
                ),
            ),
            _ => payload,
        }
    } else {
        payload
    }
}

/// Sets the trace context as the payload's `headers` (see
/// `with_benchmark_trace_context`).
pub fn add_benchmark_trace_context(payload: JsonValue, h: &TraceHeaders) -> (r: JsonValue)
    ensures
        json_view(r) == with_benchmark_trace_context(json_view(payload), *h),
{
    if h.traceparent.is_none() {
        return payload;
    }
    match payload {
        JsonValue::Object(mut entries) => {
            let mut hs: Vec<(String, JsonValue)> = Vec::new();
            let ghost e0 = entries_view(hs@);
            assert(e0 =~= Seq::<(Seq<char>, JsonView)>::empty());
            set_header(&mut hs, "traceparent", &h.traceparent);
            set_header(&mut hs, "tracestate", &h.tracestate);
            proof {
                lemma_set_entries_concat(
                    e0,
                    header_entry("traceparent"@, h.traceparent),
                    header_entry("tracestate"@, h.tracestate),
                );
            }
            set_entry(&mut entries, "headers", JsonValue::Object(hs));
            JsonValue::Object(entries)
        },
        other => other,
    }
}

/// The payload of an invocation by the batch runner: the given JSON text (an
/// empty object when there is none) with the trace context as its `headers`;
/// the parse error's text when the text is not JSON.
pub fn benchmark_invocation_payload(payload: Option<&str>, h: &TraceHeaders) -> (r: Result<JsonValue, String>)
    ensures
        match payload {
            None => r matches Ok(v) && json_view(v) == with_benchmark_trace_context(empty_object(), *h),
            Some(p) => match parsed_json(p@) {
                Ok(pv) => r matches Ok(v) && json_view(v) == with_benchmark_trace_context(pv, *h),
                Err(e) => r matches Err(m) && m@ == e,
            },
        },
{
    let base = match payload {
        None => {
            let v = JsonValue::Object(Vec::new());
            assert(json_view(v) == empty_object());
            v
        },
        Some(p) => match parse_json_text(p) {
            Ok(v) => v,
            Err(e) => {
                return Err(e);
            },
        },
    };
    Ok(add_benchmark_trace_context(base, h))
}

} // verus!
