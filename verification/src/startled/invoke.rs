//! What a benchmark sends when it invokes a function, and what it reads back:
//! the payload with the trace context of the invocation, the request a proxy
//! function takes, and the log tail that comes back.
use vstd::prelude::*;
use vstd::string::*;
use vstd::utf8::{decode_utf8, valid_utf8};
use crate::json::{
    entries_view, entry_position, json_view, lemma_entry_views, lemma_view_key_index, parse_json_text, parsed_json,
    set_entry, set_entries_spec, set_entry_spec, view_lookup, JsonValue, JsonView,
};
use crate::livetrace::processing::{base64_decode, base64_standard_decoded};
use crate::text::string_from_utf8;

verus! {

/// The trace-context headers of an invocation, as the tracing propagator
/// writes them.
pub struct TraceHeaders {
    pub traceparent: Option<String>,
    pub tracestate: Option<String>,
    pub xray_trace_id: Option<String>,
}

/// The entry of one header, when it is present.
pub open spec fn header_entry(name: Seq<char>, value: Option<String>) -> Seq<(Seq<char>, JsonView)> {
    match value {
        Some(v) => seq![(name, JsonView::Str(v@))],
        None => Seq::empty(),
    }
}

/// The headers present, as JSON entries: `traceparent`, `tracestate`,
/// `X-Amzn-Trace-Id`.
pub open spec fn trace_context_entries(h: TraceHeaders) -> Seq<(Seq<char>, JsonView)> {
    header_entry("traceparent"@, h.traceparent) + header_entry("tracestate"@, h.tracestate) + header_entry(
        "X-Amzn-Trace-Id"@,
        h.xray_trace_id,
    )
}

/// A trace context is passed on when `traceparent` or `X-Amzn-Trace-Id` is
/// present.
pub open spec fn has_trace_context(h: TraceHeaders) -> bool {
    h.traceparent is Some || h.xray_trace_id is Some
}

/// The payload with the trace context merged into its `headers` object: when
/// there is a trace context and the payload is an object, its `headers` entry
/// (a new empty object when absent) gets the present headers set in it; a
/// `headers` entry that is not an object, or a payload that is not an object,
/// is left as it is.
pub open spec fn with_trace_context(payload: JsonView, h: TraceHeaders) -> JsonView {
    if !has_trace_context(h) {
        payload
    } else {
        match payload {
            JsonView::Object(entries) => match view_lookup(entries, "headers"@) {
                None => JsonView::Object(
                    set_entry_spec(
                        entries,
                        "headers"@,
                        JsonView::Object(set_entries_spec(Seq::empty(), trace_context_entries(h))),
                    ),
                ),
                Some(JsonView::Object(hs)) => JsonView::Object(
                    set_entry_spec(entries, "headers"@, JsonView::Object(set_entries_spec(hs, trace_context_entries(h)))),
                ),
                Some(_) => payload,
            },
            _ => payload,
        }
    }
}

/// An object without entries.
pub open spec fn empty_object() -> JsonView {
    JsonView::Object(Seq::empty())
}

proof fn lemma_set_entries_push(
    entries: Seq<(Seq<char>, JsonView)>,
    added: Seq<(Seq<char>, JsonView)>,
    x: (Seq<char>, JsonView),
)
    ensures
        set_entries_spec(entries, added.push(x)) == set_entry_spec(set_entries_spec(entries, added), x.0, x.1),
{
    assert(added.push(x).drop_last() =~= added);
}

/// Sets one header entry when the header is present.
pub(crate) fn set_header(entries: &mut Vec<(String, JsonValue)>, name: &str, value: &Option<String>)
    ensures
        entries_view(final(entries)@) == set_entries_spec(entries_view(old(entries)@), header_entry(name@, *value)),
{
    match value {
        Some(v) => {
            let ghost before = entries_view(entries@);
            set_entry(entries, name, JsonValue::Str(v.clone()));
            proof {
                lemma_set_entries_push(before, Seq::empty(), (name@, JsonView::Str(v@)));
                assert(Seq::<(Seq<char>, JsonView)>::empty().push((name@, JsonView::Str(v@))) =~= header_entry(
                    name@,
                    *value,
                ));
            }
        },
        None => {},
    }
}

pub(crate) proof fn lemma_set_entries_concat(
    entries: Seq<(Seq<char>, JsonView)>,
    a: Seq<(Seq<char>, JsonView)>,
    b: Seq<(Seq<char>, JsonView)>,
)
    ensures
        set_entries_spec(entries, a + b) == set_entries_spec(set_entries_spec(entries, a), b),
    decreases b.len(),
{
    if b.len() == 0 {
        assert(a + b =~= a);
    } else {
        assert((a + b).drop_last() =~= a + b.drop_last());
        assert((a + b).last() == b.last());
        lemma_set_entries_concat(entries, a, b.drop_last());
    }
}

/// Sets the present trace headers in an object's entries.
fn set_trace_headers(entries: &mut Vec<(String, JsonValue)>, h: &TraceHeaders)
    ensures
        entries_view(final(entries)@) == set_entries_spec(entries_view(old(entries)@), trace_context_entries(*h)),
{
    let ghost e0 = entries_view(entries@);
    let ghost a = header_entry("traceparent"@, h.traceparent);
    let ghost b = header_entry("tracestate"@, h.tracestate);
    let ghost c = header_entry("X-Amzn-Trace-Id"@, h.xray_trace_id);
    set_header(entries, "traceparent", &h.traceparent);
    set_header(entries, "tracestate", &h.tracestate);
    set_header(entries, "X-Amzn-Trace-Id", &h.xray_trace_id);
    proof {
        lemma_set_entries_concat(e0, a, b);
        lemma_set_entries_concat(e0, a + b, c);
    }
}

/// Merges the trace context into a payload (see `with_trace_context`).
pub fn add_trace_context(payload: JsonValue, h: &TraceHeaders) -> (r: JsonValue)
    ensures
        json_view(r) == with_trace_context(json_view(payload), *h),
{
    if !(h.traceparent.is_some() || h.xray_trace_id.is_some()) {
        return payload;
    }
    match payload {
        JsonValue::Object(mut entries) => {
            let ghost ev = entries_view(entries@);
            proof {
                lemma_entry_views(entries@, entries@.len() as int);
                lemma_view_key_index(ev, "headers"@);
            }
            match entry_position(&entries, "headers") {
                None => {
                    let mut hs: Vec<(String, JsonValue)> = Vec::new();
                    assert(entries_view(hs@) =~= Seq::<(Seq<char>, JsonView)>::empty());
                    set_trace_headers(&mut hs, h);
                    let ghost hv = entries_view(hs@);
                    set_entry(&mut entries, "headers", JsonValue::Object(hs));
                    JsonValue::Object(entries)
                },
                Some(i) => {
                    assert(ev[i as int] == (entries@[i as int].0@, json_view(entries@[i as int].1)));
                    let is_object = match &entries[i].1 {
                        JsonValue::Object(_) => true,
                        _ => false,
                    };
                    if !is_object {
                        return JsonValue::Object(entries);
                    }
                    let ghost old_entries = entries@;
                    let (k, v) = entries.remove(i);
                    match v {
                        JsonValue::Object(mut hs) => {
                            let ghost hv0 = entries_view(hs@);
                            set_trace_headers(&mut hs, h);
                            let ghost nv = JsonValue::Object(hs);
                            entries.insert(i, (k, JsonValue::Object(hs)));
                            proof {
                                assert(entries@ =~= old_entries.update(i as int, (k, nv)));
                                lemma_entry_views(entries@, entries@.len() as int);
                                assert(entries_view(entries@) =~= ev.update(i as int, ("headers"@, json_view(nv))));
                            }
                            JsonValue::Object(entries)
                        },
                        _ => {
                            proof {
                                assert(false);
                            }
                            JsonValue::Null
                        },
                    }
                },
            }
        },
        other => other,
    }
}

/// The payload of an invocation: the given JSON text (an empty object when
/// there is none) with the trace context merged in; the parse error's text
/// when the text is not JSON.
pub fn invocation_payload(payload: Option<&str>, h: &TraceHeaders) -> (r: Result<JsonValue, String>)
    ensures
        match payload {
            None => r matches Ok(v) && json_view(v) == with_trace_context(empty_object(), *h),
            Some(p) => match parsed_json(p@) {
                Ok(pv) => r matches Ok(v) && json_view(v) == with_trace_context(pv, *h),
                Err(e) => r matches Err(m) && m@ == e,
            },
        },
{
    let base = match payload {
        None => {
            let v = JsonValue::Object(Vec::new());
            assert(json_view(v) == empty_object());
            v
        },
        Some(p) => match parse_json_text(p) {
            Ok(v) => v,
            Err(e) => {
                return Err(e);
            },
        },
    };
    Ok(add_trace_context(base, h))
}

/// The request a proxy function takes: the function to invoke and its payload.
pub fn proxy_request(target: &str, payload: JsonValue) -> (r: JsonValue)
    ensures
        json_view(r) == JsonView::Object(
            seq![("target"@, JsonView::Str(target@)), ("payload"@, json_view(payload))],
        ),
{
    let ghost pv = json_view(payload);
    let mut entries: Vec<(String, JsonValue)> = Vec::new();
    entries.push((String::from_str("target"), JsonValue::Str(String::from_str(target))));
    entries.push((String::from_str("payload"), payload));
    proof {
        lemma_entry_views(entries@, 2);
    }
    let r = JsonValue::Object(entries);
    assert(entries_view(entries@) =~= seq![("target"@, JsonView::Str(target@)), ("payload"@, pv)]);
    r
}

/// The log tail of an invocation: the base64 text decoded, read as UTF-8;
/// `None` when it is not base64 or not UTF-8.
pub fn decoded_log_tail(log_result: &str) -> (r: Option<String>)
    ensures
        match base64_standard_decoded(log_result@) {
            None => r is None,
            Some(bytes) => if valid_utf8(bytes) {
                r matches Some(s) && s@ == decode_utf8(bytes)
            } else {
                r is None
            },
        },
{
    match base64_decode(log_result) {
        Some(bytes) => string_from_utf8(bytes),
        None => None,
    }
}

/// The error of an invocation that the function reports as failed, with its
/// logs.
pub fn invocation_failure_message(function_error: &str, logs: &str) -> (r: String)
    ensures
        r@ == "Function invocation failed: "@ + function_error@ + ".\nLogs:\n"@ + logs@,
{
    let mut m = String::from_str("Function invocation failed: ");
    m.append(function_error);
    m.append(".\nLogs:\n");
    m.append(logs);
    m
}

} // verus!
