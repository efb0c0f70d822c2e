//! The decisions of a `livetrace` session: the checks on the resolved
//! configuration, and the buffering of incoming payloads by trace until a trace
//! is complete or too old. The event loop that receives payloads and ticks the
//! clock drives these functions.
use vstd::prelude::*;
use vstd::string::*;
use crate::livetrace::otlp::{decode_records, record_span_ids, trace_request_span_ids, ResourceRecord};
use crate::livetrace::processing::{TelemetryData, TelemetryView};
use crate::text::{push_char, str_eq};

verus! {

// ----------------------------------------------------------------------------
// Checks on the resolved configuration
// ----------------------------------------------------------------------------

/// Why a session cannot start.
pub enum StartupError {
    /// Neither log-group patterns nor a stack name were given.
    MissingDiscovery,
    /// Forward-only mode without any OTLP endpoint.
    ForwardOnlyWithoutEndpoint,
}

impl StartupError {
    /// The error message.
    pub fn message(&self) -> (r: String)
        ensures
            r@ == match self {
                StartupError::MissingDiscovery =>
                    "Either --log-group-pattern or --stack-name must be provided on the command line or in the configuration profile"@,
                StartupError::ForwardOnlyWithoutEndpoint =>
                    "\n            --forward-only requires --otlp-endpoint argument or OTEL_EXPORTER_OTLP_TRACES_ENDPOINT/OTEL_EXPORTER_OTLP_ENDPOINT env var to be set"@,
            },
    {
        match self {
            StartupError::MissingDiscovery => String::from_str(
                "Either --log-group-pattern or --stack-name must be provided on the command line or in the configuration profile",
            ),
            StartupError::ForwardOnlyWithoutEndpoint => String::from_str(
                "\n            --forward-only requires --otlp-endpoint argument or OTEL_EXPORTER_OTLP_TRACES_ENDPOINT/OTEL_EXPORTER_OTLP_ENDPOINT env var to be set",
            ),
        }
    }
}

/// Log groups are found by patterns or by a CloudFormation stack: one of the two
/// must be given.
pub fn check_discovery(log_group_pattern: &Option<Vec<String>>, stack_name: &Option<String>) -> (r:
    Result<(), StartupError>)
    ensures
        r is Err <==> (log_group_pattern is None && stack_name is None),
        r is Err ==> r->Err_0 is MissingDiscovery,
{
    if log_group_pattern.is_none() && stack_name.is_none() {
        Err(StartupError::MissingDiscovery)
    } else {
        Ok(())
    }
}

/// Forward-only mode needs an endpoint to forward to.
pub fn check_forwarding(forward_only: bool, endpoint: &Option<String>) -> (r: Result<(), StartupError>)
    ensures
        r is Err <==> (forward_only && endpoint is None),
        r is Err ==> r->Err_0 is ForwardOnlyWithoutEndpoint,
{
    if forward_only && endpoint.is_none() {
        Err(StartupError::ForwardOnlyWithoutEndpoint)
    } else {
        Ok(())
    }
}

/// How much the session logs.
#[derive(Clone, Copy, Debug, PartialEq, Eq, Structural)]
pub enum LogLevel {
    Info,
    Debug,
    Trace,
}

/// `-v` count to log level: none is info, one is debug, more is trace.
pub fn log_level_for(verbose: u8) -> (l: LogLevel)
    ensures
        l == (if verbose == 0 {
            LogLevel::Info
        } else if verbose == 1 {
            LogLevel::Debug
        } else {
            LogLevel::Trace
        }),
{
    if verbose == 0 {
        LogLevel::Info
    } else if verbose == 1 {
        LogLevel::Debug
    } else {
        LogLevel::Trace
    }
}

/// The verbosity shown in the session preamble.
pub open spec fn verbosity_label_spec(verbose: u8) -> Seq<char> {
    if verbose == 0 {
        "Normal"@
    } else if verbose == 1 {
        "Debug (-v)"@
    } else {
        "Trace (-v"@ + Seq::new((verbose - 1) as nat, |i: int| 'v') + ")"@
    }
}

pub fn verbosity_label(verbose: u8) -> (r: String)
    ensures
        r@ == verbosity_label_spec(verbose),
{
    if verbose == 0 {
        String::from_str("Normal")
    } else if verbose == 1 {
        String::from_str("Debug (-v)")
    } else {
        let mut s = String::from_str("Trace (-v");
        proof {
            reveal_strlit("Trace (-v");
        }
        let ghost start = s@;
        let mut i: u8 = 1;
        while i < verbose
            invariant
                1 <= i <= verbose,
                s@ == start + Seq::new((i - 1) as nat, |k: int| 'v'),
            decreases verbose - i,
        {
            let ghost before = s@;
            push_char(&mut s, 'v');
            assert(s@ =~= start + Seq::new(i as nat, |k: int| 'v'));
            i = i + 1;
        }
        s.append(")");
        s
    }
}

/// The log-group name shown for an ARN: the text after its last `:` (all of
/// it when it has none).
pub open spec fn arn_last_segment(arn: Seq<char>) -> Seq<char>
    decreases arn.len(),
{
    if arn.len() == 0 {
        arn
    } else if arn.last() == ':' {
        Seq::empty()
    } else {
        arn_last_segment(arn.drop_last()).push(arn.last())
    }
}

pub fn log_group_name_from_arn(arn: &str) -> (r: String)
    ensures
        r@ == arn_last_segment(arn@),
{
    let n = arn.unicode_len();
    let mut start: usize = n;
    while start > 0 && arn.get_char(start - 1) != ':'
        invariant
            start <= n,
            n == arn@.len(),
            forall|k: int| start <= k < n ==> arn@[k] != ':',
        decreases start,
    {
        start = start - 1;
    }
    proof {
        lemma_last_segment(arn@, start as int);
    }
    String::from_str(arn.substring_char(start, n))
}

proof fn lemma_last_segment(s: Seq<char>, start: int)
    requires
        0 <= start <= s.len(),
        forall|k: int| start <= k < s.len() ==> s[k] != ':',
        start == 0 || s[start - 1] == ':',
    ensures
        arn_last_segment(s) == s.subrange(start, s.len() as int),
    decreases s.len(),
{
    if s.len() == 0 {
    } else if start == s.len() {
    } else {
        lemma_last_segment(s.drop_last(), start);
        assert(s.drop_last().subrange(start, s.len() - 1).push(s.last()) =~= s.subrange(
            start,
            s.len() as int,
        ));
    }
}

// ----------------------------------------------------------------------------
// What a payload says about its trace
// ----------------------------------------------------------------------------

pub open spec fn hex_digit(d: int) -> char {
    if d < 10 {
        (('0' as int) + d) as char
    } else {
        (('a' as int) + d - 10) as char
    }
}

/// Lower-case hexadecimal text of bytes, two digits per byte, high nibble first.
pub open spec fn hex_lower(bytes: Seq<u8>) -> Seq<char>
    decreases bytes.len(),
{
    if bytes.len() == 0 {
        Seq::empty()
    } else {
        hex_lower(bytes.drop_last()) + seq![
            hex_digit(bytes.last() as int / 16),
            hex_digit(bytes.last() as int % 16),
        ]
    }
}

/// `hex::encode`: each byte becomes two characters of `0123456789abcdef`, the
/// high nibble first.
#[verifier::external_body]
pub(crate) fn hex_encode(bytes: &[u8]) -> (r: String)
    ensures
        r@ == hex_lower(bytes@),
{
    hex::encode(bytes)
}

/// The spans of one resource, scope after scope.
pub open spec fn scope_spans_flat(scopes: Seq<Seq<(Seq<u8>, Seq<u8>)>>) -> Seq<(Seq<u8>, Seq<u8>)>
    decreases scopes.len(),
{
    if scopes.len() == 0 {
        Seq::empty()
    } else {
        scope_spans_flat(scopes.drop_last()) + scopes.last()
    }
}

/// All spans of a request, resource after resource.
pub open spec fn spans_flat(resources: Seq<Seq<Seq<(Seq<u8>, Seq<u8>)>>>) -> Seq<(Seq<u8>, Seq<u8>)>
    decreases resources.len(),
{
    if resources.len() == 0 {
        Seq::empty()
    } else {
        spans_flat(resources.drop_last()) + scope_spans_flat(resources.last())
    }
}

/// Whether one of the spans is a root span (has no parent).
pub open spec fn has_root_span(spans: Seq<(Seq<u8>, Seq<u8>)>) -> bool {
    exists|k: int| 0 <= k < spans.len() && (#[trigger] spans[k]).1.len() == 0
}

/// The trace a payload belongs to: the hex trace id of its first span, and
/// whether it carries a root span; `None` when it has no span.
pub open spec fn payload_trace(spans: Seq<(Seq<u8>, Seq<u8>)>) -> Option<(Seq<char>, bool)> {
    if spans.len() == 0 {
        None
    } else {
        Some((hex_lower(spans[0].0), has_root_span(spans)))
    }
}

spec fn summary_of(seen: Seq<(Seq<u8>, Seq<u8>)>, first: Option<String>, root: bool) -> bool {
    &&& (first is Some <==> seen.len() > 0)
    &&& (first is Some ==> first->Some_0@ == hex_lower(seen[0].0))
    &&& (root <==> has_root_span(seen))
}

proof fn lemma_summary_push(
    seen: Seq<(Seq<u8>, Seq<u8>)>,
    first: Option<String>,
    root: bool,
    span: (Seq<u8>, Seq<u8>),
    first2: Option<String>,
    root2: bool,
)
    requires
        summary_of(seen, first, root),
        first is Some ==> first2 == first,
        first is None ==> first2 is Some && first2->Some_0@ == hex_lower(span.0),
        root2 == (root || span.1.len() == 0),
    ensures
        summary_of(seen.push(span), first2, root2),
{
    let s2 = seen.push(span);
    if root {
        let k = choose|k: int| 0 <= k < seen.len() && (#[trigger] seen[k]).1.len() == 0;
        assert(s2[k] == seen[k]);
    }
    if span.1.len() == 0 {
        assert(s2[seen.len() as int] == span);
    }
    if has_root_span(s2) {
        let k = choose|k: int| 0 <= k < s2.len() && (#[trigger] s2[k]).1.len() == 0;
        if k < seen.len() {
            assert(seen[k] == s2[k]);
        }
    }
}

/// Finds the trace of a payload's spans (see `payload_trace`).
pub fn trace_of_spans(resources: &Vec<ResourceRecord>) -> (r: Option<(String, bool)>)
    ensures
        match r {
            Some((id, root)) => payload_trace(spans_flat(record_span_ids(resources@))) == Some(
                (id@, root),
            ),
            None => payload_trace(spans_flat(record_span_ids(resources@))) is None,
        },
{
    let ghost rv = record_span_ids(resources@);
    let mut first: Option<String> = None;
    let mut root = false;
    let ghost mut seen: Seq<(Seq<u8>, Seq<u8>)> = Seq::empty();
    let mut i: usize = 0;
    assert(rv.take(0) =~= Seq::<Seq<Seq<(Seq<u8>, Seq<u8>)>>>::empty());
    while i < resources.len()
        invariant
            rv == record_span_ids(resources@),
            i <= resources@.len(),
            seen == spans_flat(rv.take(i as int)),
            summary_of(seen, first, root),
        decreases resources@.len() - i,
    {
        let scopes = &resources[i].scopes;
        let ghost sv = rv[i as int];
        assert(sv == scopes@.map_values(
            |sc: Vec<crate::livetrace::otlp::SpanRecord>|
                sc@.map_values(|sp: crate::livetrace::otlp::SpanRecord| (sp.trace_id@, sp.parent_span_id@)),
        ));
        let mut j: usize = 0;
        assert(sv.take(0) =~= Seq::<Seq<(Seq<u8>, Seq<u8>)>>::empty());
        assert(seen =~= spans_flat(rv.take(i as int)) + scope_spans_flat(sv.take(0)));
        while j < scopes.len()
            invariant
                rv == record_span_ids(resources@),
                i < resources@.len(),
                sv == rv[i as int],
                scopes == resources@[i as int].scopes,
                sv.len() == scopes@.len(),
                forall|q: int|
                    0 <= q < sv.len() ==> #[trigger] sv[q] == scopes@[q]@.map_values(
                        |sp: crate::livetrace::otlp::SpanRecord| (sp.trace_id@, sp.parent_span_id@),
                    ),
                j <= scopes@.len(),
                seen == spans_flat(rv.take(i as int)) + scope_spans_flat(sv.take(j as int)),
                summary_of(seen, first, root),
            decreases scopes@.len() - j,
        {
            let spans = &scopes[j];
            let ghost pv = sv[j as int];
            let ghost base = seen;
            let mut k: usize = 0;
            assert(base + pv.take(0) =~= base);
            while k < spans.len()
                invariant
                    pv == spans@.map_values(
                        |sp: crate::livetrace::otlp::SpanRecord| (sp.trace_id@, sp.parent_span_id@),
                    ),
                    k <= spans@.len(),
                    seen == base + pv.take(k as int),
                    summary_of(seen, first, root),
                decreases spans@.len() - k,
            {
                let span = &spans[k];
                let ghost item = pv[k as int];
                assert(item == (span.trace_id@, span.parent_span_id@));
                let ghost first_before = first;
                let ghost root_before = root;
                if first.is_none() {
                    first = Some(hex_encode(span.trace_id.as_slice()));
                }
                if span.parent_span_id.len() == 0 {
                    root = true;
                }
                proof {
                    lemma_summary_push(seen, first_before, root_before, item, first, root);
                    assert(base + pv.take(k + 1) =~= (base + pv.take(k as int)).push(item));
                    seen = seen.push(item);
                }
                k = k + 1;
            }
            proof {
                assert(pv.take(k as int) =~= pv);
                assert(sv.take(j + 1).drop_last() =~= sv.take(j as int));
                assert(scope_spans_flat(sv.take(j + 1)) == scope_spans_flat(sv.take(j as int)) + pv);
                assert(seen =~= spans_flat(rv.take(i as int)) + scope_spans_flat(sv.take(j + 1)));
            }
            j = j + 1;
        }
        proof {
            assert(sv.take(j as int) =~= sv);
            assert(rv.take(i + 1).drop_last() =~= rv.take(i as int));
            assert(spans_flat(rv.take(i + 1)) == spans_flat(rv.take(i as int)) + scope_spans_flat(sv));
        }
        i = i + 1;
    }
    assert(rv.take(i as int) =~= rv);
    match first {
        Some(id) => Some((id, root)),
        None => None,
    }
}

// ----------------------------------------------------------------------------
// Buffering payloads by trace
// ----------------------------------------------------------------------------

/// The payloads buffered for one trace, with the times (milliseconds of a
/// monotonic clock) of its first and last payload.
pub struct TraceBuffer {
    pub trace_id: String,
    pub payloads: Vec<TelemetryData>,
    pub has_received_root: bool,
    pub first_message_at_ms: u64,
    pub last_message_at_ms: u64,
}

pub struct TraceState {
    pub trace_id: Seq<char>,
    pub payloads: Seq<TelemetryView>,
    pub has_received_root: bool,
    pub first_at: u64,
    pub last_at: u64,
}

pub open spec fn telemetry_views(v: Seq<TelemetryData>) -> Seq<TelemetryView> {
    v.map_values(|t: TelemetryData| t@)
}

impl View for TraceBuffer {
    type V = TraceState;

    open spec fn view(&self) -> TraceState {
        TraceState {
            trace_id: self.trace_id@,
            payloads: telemetry_views(self.payloads@),
            has_received_root: self.has_received_root,
            first_at: self.first_message_at_ms,
            last_at: self.last_message_at_ms,
        }
    }
}

pub open spec fn trace_views(v: Seq<TraceBuffer>) -> Seq<TraceState> {
    v.map_values(|t: TraceBuffer| t@)
}

/// No two buffered traces share an id.
pub open spec fn distinct_ids(s: Seq<TraceState>) -> bool {
    forall|a: int, b: int|
        0 <= a < b < s.len() ==> (#[trigger] s[a]).trace_id != (#[trigger] s[b]).trace_id
}

/// Position of the trace with this id.
pub open spec fn trace_index(s: Seq<TraceState>, id: Seq<char>) -> Option<int>
    decreases s.len(),
{
    if s.len() == 0 {
        None
    } else if s.last().trace_id == id {
        Some(s.len() - 1)
    } else {
        trace_index(s.drop_last(), id)
    }
}

/// A payload of trace `id` arriving at `now`: appended to the trace's buffer,
/// whose root flag then also counts this payload and whose last time becomes
/// `now`; a trace not yet buffered starts with this payload at `now`.
pub open spec fn record_spec(
    s: Seq<TraceState>,
    id: Seq<char>,
    t: TelemetryView,
    contains_root: bool,
    now: u64,
) -> Seq<TraceState> {
    match trace_index(s, id) {
        Some(i) => s.update(
            i,
            TraceState {
                trace_id: s[i].trace_id,
                payloads: s[i].payloads.push(t),
                has_received_root: s[i].has_received_root || contains_root,
                first_at: s[i].first_at,
                last_at: now,
            },
        ),
        None => s.push(
            TraceState {
                trace_id: id,
                payloads: seq![t],
                has_received_root: contains_root,
                first_at: now,
                last_at: now,
            },
        ),
    }
}

/// Time from `then` to `now`, zero when `now` is earlier.
pub open spec fn elapsed(now: u64, then: u64) -> int {
    if now >= then {
        now - then
    } else {
        0
    }
}

/// A trace is flushed once its root has been seen and nothing arrived for
/// longer than `idle_ms`, or once its first payload is older than `timeout_ms`.
pub open spec fn is_due(t: TraceState, now: u64, idle_ms: u64, timeout_ms: u64) -> bool {
    (t.has_received_root && elapsed(now, t.last_at) > idle_ms) || elapsed(now, t.first_at)
        > timeout_ms
}

/// The due traces, in buffer order.
pub open spec fn due_traces(s: Seq<TraceState>, now: u64, idle_ms: u64, timeout_ms: u64) -> Seq<
    TraceState,
>
    decreases s.len(),
{
    if s.len() == 0 {
        Seq::empty()
    } else if is_due(s.last(), now, idle_ms, timeout_ms) {
        due_traces(s.drop_last(), now, idle_ms, timeout_ms).push(s.last())
    } else {
        due_traces(s.drop_last(), now, idle_ms, timeout_ms)
    }
}

/// The traces that stay buffered, in buffer order.
pub open spec fn pending_traces(s: Seq<TraceState>, now: u64, idle_ms: u64, timeout_ms: u64) -> Seq<
    TraceState,
>
    decreases s.len(),
{
    if s.len() == 0 {
        Seq::empty()
    } else if is_due(s.last(), now, idle_ms, timeout_ms) {
        pending_traces(s.drop_last(), now, idle_ms, timeout_ms)
    } else {
        pending_traces(s.drop_last(), now, idle_ms, timeout_ms).push(s.last())
    }
}

/// The traces being buffered.
pub struct TraceBuffers {
    traces: Vec<TraceBuffer>,
}

impl View for TraceBuffers {
    type V = Seq<TraceState>;

    closed spec fn view(&self) -> Seq<TraceState> {
        trace_views(self.traces@)
    }
}

/// What became of an incoming payload.
#[derive(Clone, Copy, Debug, PartialEq, Eq, Structural)]
pub enum PayloadOutcome {
    /// Added to the buffer of its trace.
    Buffered,
    /// Not an OTLP protobuf request; dropped.
    DecodeFailed,
    /// A request without spans, so without a trace id; dropped.
    NoSpans,
}

proof fn lemma_trace_index(s: Seq<TraceState>, id: Seq<char>)
    ensures
        match trace_index(s, id) {
            Some(i) => 0 <= i < s.len() && s[i].trace_id == id && forall|j: int|
                i < j < s.len() ==> (#[trigger] s[j]).trace_id != id,
            None => forall|j: int| 0 <= j < s.len() ==> (#[trigger] s[j]).trace_id != id,
        },
    decreases s.len(),
{
    if s.len() > 0 {
        lemma_trace_index(s.drop_last(), id);
        if s.last().trace_id != id {
            assert forall|j: int| 0 <= j < s.len() - 1 implies s[j] == s.drop_last()[j] by {}
        }
    }
}

/// Recording a payload keeps the trace ids distinct.
pub proof fn lemma_record_keeps_ids_distinct(
    s: Seq<TraceState>,
    id: Seq<char>,
    t: TelemetryView,
    contains_root: bool,
    now: u64,
)
    requires
        distinct_ids(s),
    ensures
        distinct_ids(record_spec(s, id, t, contains_root, now)),
{
    lemma_trace_index(s, id);
    let r = record_spec(s, id, t, contains_root, now);
    assert forall|a: int, b: int| 0 <= a < b < r.len() implies (#[trigger] r[a]).trace_id
        != (#[trigger] r[b]).trace_id by {
        match trace_index(s, id) {
            Some(i) => {
                assert(r[a].trace_id == s[a].trace_id);
                assert(r[b].trace_id == s[b].trace_id);
            },
            None => {
                if b < s.len() {
                    assert(r[a] == s[a] && r[b] == s[b]);
                } else {
                    assert(r[a] == s[a]);
                }
            },
        }
    }
}

proof fn lemma_partition_step(s: Seq<TraceState>, k: int, now: u64, idle_ms: u64, timeout_ms: u64)
    requires
        0 <= k < s.len(),
    ensures
        s.take(k + 1).drop_last() == s.take(k),
        s.take(k + 1).last() == s[k],
{
    assert(s.take(k + 1).drop_last() =~= s.take(k));
}

impl TraceBuffers {
    #[verifier::type_invariant]
    spec fn ids_distinct(&self) -> bool {
        distinct_ids(self@)
    }

    /// No trace buffered.
    pub fn new() -> (r: Self)
        ensures
            r@ == Seq::<TraceState>::empty(),
    {
        let r = TraceBuffers { traces: Vec::new() };
        assert(r@ =~= Seq::<TraceState>::empty());
        r
    }

    /// The number of traces buffered.
    pub fn pending_count(&self) -> (n: usize)
        ensures
            n == self@.len(),
    {
        self.traces.len()
    }

    /// Adds a payload to the buffer of its trace (see `record_spec`).
    pub fn record(&mut self, trace_id: String, telemetry: TelemetryData, contains_root: bool, now_ms: u64)
        ensures
            final(self)@ == record_spec(old(self)@, trace_id@, telemetry@, contains_root, now_ms),
            distinct_ids(final(self)@),
    {
        proof {
            use_type_invariant(&*self);
        }
        let ghost s = self@;
        let ghost id = trace_id@;
        let ghost tv = telemetry@;
        proof {
            lemma_trace_index(s, id);
            lemma_record_keeps_ids_distinct(s, id, tv, contains_root, now_ms);
        }
        let mut i = self.traces.len();
        while i > 0
            invariant
                i <= self.traces@.len(),
                s == trace_views(self.traces@),
                id == trace_id@,
                forall|j: int| i <= j < s.len() ==> (#[trigger] s[j]).trace_id != id,
            ensures
                i <= self.traces@.len(),
                forall|j: int| i <= j < s.len() ==> (#[trigger] s[j]).trace_id != id,
                i > 0 ==> s[i - 1].trace_id == id,
            decreases i,
        {
            if str_eq(self.traces[i - 1].trace_id.as_str(), trace_id.as_str()) {
                break;
            }
            i = i - 1;
        }
        if i > 0 {
            let k = i - 1;
            proof {
                assert(s[k as int].trace_id == id);
                assert(trace_index(s, id) == Some(k as int));
            }
            let mut traces = Vec::new();
            std::mem::swap(&mut traces, &mut self.traces);
            let mut entry = traces.remove(k);
            let ghost before = entry@;
            entry.payloads.push(telemetry);
            entry.has_received_root = entry.has_received_root || contains_root;
            entry.last_message_at_ms = now_ms;
            assert(telemetry_views(entry.payloads@) =~= before.payloads.push(tv));
            traces.insert(k, entry);
            assert(trace_views(traces@) =~= record_spec(s, id, tv, contains_root, now_ms));
            self.traces = traces;
        } else {
            proof {
                assert(trace_index(s, id) is None);
            }
            let mut payloads = Vec::new();
            payloads.push(telemetry);
            let entry = TraceBuffer {
                trace_id,
                payloads,
                has_received_root: contains_root,
                first_message_at_ms: now_ms,
                last_message_at_ms: now_ms,
            };
            assert(entry@.payloads =~= seq![tv]);
            let mut traces = Vec::new();
            std::mem::swap(&mut traces, &mut self.traces);
            traces.push(entry);
            assert(trace_views(traces@) =~= record_spec(s, id, tv, contains_root, now_ms));
            self.traces = traces;
        }
    }

    /// Takes out the traces that are due at `now_ms` (see `is_due`), in buffer
    /// order; the others stay, in their order.
    pub fn take_due(&mut self, now_ms: u64, idle_ms: u64, timeout_ms: u64) -> (flushed: Vec<
        TraceBuffer,
    >)
        ensures
            trace_views(flushed@) == due_traces(old(self)@, now_ms, idle_ms, timeout_ms),
            final(self)@ == pending_traces(old(self)@, now_ms, idle_ms, timeout_ms),
            distinct_ids(final(self)@),
    {
        proof {
            use_type_invariant(&*self);
        }
        let ghost s = self@;
        let mut rest = Vec::new();
        std::mem::swap(&mut rest, &mut self.traces);
        let mut flushed: Vec<TraceBuffer> = Vec::new();
        let mut kept: Vec<TraceBuffer> = Vec::new();
        let ghost n = s.len();
        assert(s.take(0) =~= Seq::<TraceState>::empty());
        assert(trace_views(rest@) =~= s.subrange(0, n as int));
        while rest.len() > 0
            invariant
                n == s.len(),
                rest@.len() <= n,
                trace_views(rest@) == s.subrange(n - rest@.len(), n as int),
                trace_views(flushed@) == due_traces(
                    s.take(n - rest@.len()),
                    now_ms,
                    idle_ms,
                    timeout_ms,
                ),
                trace_views(kept@) == pending_traces(
                    s.take(n - rest@.len()),
                    now_ms,
                    idle_ms,
                    timeout_ms,
                ),
            decreases rest@.len(),
        {
            let ghost k = n - rest@.len();
            let ghost old_rest = rest@;
            assert(trace_views(old_rest)[0] == old_rest[0]@);
            let t = rest.remove(0);
            proof {
                assert(trace_views(rest@) =~= trace_views(old_rest).subrange(1, old_rest.len() as int));
                lemma_partition_step(s, k, now_ms, idle_ms, timeout_ms);
                assert(t@ == s[k]);
                assert(trace_views(rest@) =~= s.subrange(k + 1, n as int));
            }
            let due = t.has_received_root && elapsed_ms(now_ms, t.last_message_at_ms) > idle_ms
                || elapsed_ms(now_ms, t.first_message_at_ms) > timeout_ms;
            if due {
                flushed.push(t);
                assert(trace_views(flushed@) =~= due_traces(s.take(k), now_ms, idle_ms, timeout_ms).push(
                    s[k],
                ));
            } else {
                kept.push(t);
                assert(trace_views(kept@) =~= pending_traces(s.take(k), now_ms, idle_ms, timeout_ms).push(
                    s[k],
                ));
            }
        }
        assert(s.take(n as int) =~= s);
        proof {
            lemma_pending_sub(s, now_ms, idle_ms, timeout_ms);
        }
        self.traces = kept;
        flushed
    }

    /// One incoming payload: it is decoded to find its trace, then buffered.
    /// Payloads that do not decode, or carry no span, are dropped.
    pub fn on_payload(&mut self, telemetry: TelemetryData, now_ms: u64) -> (o: PayloadOutcome)
        ensures
            match trace_request_span_ids(telemetry.payload@) {
                None => o == PayloadOutcome::DecodeFailed && final(self)@ == old(self)@,
                Some(res) => match payload_trace(spans_flat(res)) {
                    None => o == PayloadOutcome::NoSpans && final(self)@ == old(self)@,
                    Some((id, root)) => o == PayloadOutcome::Buffered && final(self)@
                        == record_spec(old(self)@, id, telemetry@, root, now_ms),
                },
            },
            distinct_ids(final(self)@),
    {
        proof {
            use_type_invariant(&*self);
        }
        match decode_records(telemetry.payload.as_slice()) {
            None => PayloadOutcome::DecodeFailed,
            Some(resources) => match trace_of_spans(&resources) {
                None => PayloadOutcome::NoSpans,
                Some((id, root)) => {
                    self.record(id, telemetry, root, now_ms);
                    PayloadOutcome::Buffered
                },
            },
        }
    }
}

/// Flushing splits the buffer: every buffered trace is either flushed (and was
/// due) or stays (and was not due); none is lost and none is duplicated.
pub proof fn lemma_take_due_partitions(s: Seq<TraceState>, now: u64, idle_ms: u64, timeout_ms: u64)
    ensures
        due_traces(s, now, idle_ms, timeout_ms).len() + pending_traces(s, now, idle_ms, timeout_ms).len()
            == s.len(),
        forall|j: int|
            0 <= j < due_traces(s, now, idle_ms, timeout_ms).len() ==> is_due(
                #[trigger] due_traces(s, now, idle_ms, timeout_ms)[j],
                now,
                idle_ms,
                timeout_ms,
            ) && s.contains(due_traces(s, now, idle_ms, timeout_ms)[j]),
        forall|j: int|
            0 <= j < pending_traces(s, now, idle_ms, timeout_ms).len() ==> !is_due(
                #[trigger] pending_traces(s, now, idle_ms, timeout_ms)[j],
                now,
                idle_ms,
                timeout_ms,
            ) && s.contains(pending_traces(s, now, idle_ms, timeout_ms)[j]),
        forall|t: TraceState|
            s.contains(t) ==> (#[trigger] due_traces(s, now, idle_ms, timeout_ms).contains(t)
                || pending_traces(s, now, idle_ms, timeout_ms).contains(t)),
    decreases s.len(),
{
    if s.len() > 0 {
        let d = s.drop_last();
        lemma_take_due_partitions(d, now, idle_ms, timeout_ms);
        let dd = due_traces(d, now, idle_ms, timeout_ms);
        let pd = pending_traces(d, now, idle_ms, timeout_ms);
        let ds = due_traces(s, now, idle_ms, timeout_ms);
        let ps = pending_traces(s, now, idle_ms, timeout_ms);
        assert(s.last() == s[s.len() - 1]);
        assert forall|j: int| 0 <= j < ds.len() implies is_due(#[trigger] ds[j], now, idle_ms, timeout_ms)
            && s.contains(ds[j]) by {
            if j < dd.len() {
                assert(ds[j] == dd[j]);
                let x = choose|x: int| 0 <= x < d.len() && d[x] == dd[j];
                assert(s[x] == d[x]);
            }
        }
        assert forall|j: int| 0 <= j < ps.len() implies !is_due(#[trigger] ps[j], now, idle_ms, timeout_ms)
            && s.contains(ps[j]) by {
            if j < pd.len() {
                assert(ps[j] == pd[j]);
                let x = choose|x: int| 0 <= x < d.len() && d[x] == pd[j];
                assert(s[x] == d[x]);
            }
        }
        assert forall|t: TraceState| s.contains(t) implies (#[trigger] ds.contains(t) || ps.contains(t)) by {
            let x = choose|x: int| 0 <= x < s.len() && s[x] == t;
            if x < s.len() - 1 {
                assert(d[x] == s[x]);
                assert(d.contains(t));
                if dd.contains(t) {
                    let y = choose|y: int| 0 <= y < dd.len() && dd[y] == t;
                    assert(ds[y] == dd[y]);
                } else {
                    let y = choose|y: int| 0 <= y < pd.len() && pd[y] == t;
                    assert(ps[y] == pd[y]);
                }
            } else if is_due(s.last(), now, idle_ms, timeout_ms) {
                assert(ds[ds.len() - 1] == t);
            } else {
                assert(ps[ps.len() - 1] == t);
            }
        }
    }
}

/// Recording a payload changes only the buffer of its trace: that buffer gains
/// the payload at its end and keeps a root once seen; a new trace starts at the
/// end of the buffer with just this payload. All other traces stay as they are,
/// where they are.
pub proof fn lemma_record_effect(
    s: Seq<TraceState>,
    id: Seq<char>,
    t: TelemetryView,
    contains_root: bool,
    now: u64,
)
    ensures
        ({
            let r = record_spec(s, id, t, contains_root, now);
            match trace_index(s, id) {
                Some(i) => {
                    &&& r.len() == s.len()
                    &&& r[i].trace_id == id
                    &&& r[i].payloads == s[i].payloads.push(t)
                    &&& (s[i].has_received_root ==> r[i].has_received_root)
                    &&& r[i].last_at == now
                    &&& forall|j: int| 0 <= j < s.len() && j != i ==> r[j] == #[trigger] s[j]
                },
                None => {
                    &&& r.len() == s.len() + 1
                    &&& r.last().trace_id == id
                    &&& r.last().payloads == seq![t]
                    &&& forall|j: int| 0 <= j < s.len() ==> r[j] == #[trigger] s[j]
                },
            }
        }),
{
    lemma_trace_index(s, id);
}

/// The time of the first payload of trace `id` once a payload arrives at
/// `at`: its buffer's first time, or `at` when the trace is new.
pub open spec fn first_payload_at(s: Seq<TraceState>, id: Seq<char>, at: u64) -> u64 {
    match trace_index(s, id) {
        Some(i) => s[i].first_at,
        None => at,
    }
}

/// Whatever the buffer held, after a payload of trace `id` arrives at `at`: if
/// at `now` no more than `idle_ms` have passed since that payload, and no more
/// than `timeout_ms` since the trace's first payload, the trace is not flushed
/// but stays buffered; if its root has been seen and more than `idle_ms` have
/// passed since that payload, it is flushed.
pub proof fn lemma_flush_follows_latest_payload(
    s: Seq<TraceState>,
    id: Seq<char>,
    t: TelemetryView,
    contains_root: bool,
    at: u64,
    now: u64,
    idle_ms: u64,
    timeout_ms: u64,
)
    requires
        at <= now,
    ensures
        ({
            let r = record_spec(s, id, t, contains_root, at);
            exists|k: int|
                0 <= k < r.len() && (#[trigger] r[k]).trace_id == id && r[k].payloads.last() == t && {
                    &&& (now - at <= idle_ms && elapsed(now, first_payload_at(s, id, at)) <= timeout_ms)
                        ==> pending_traces(r, now, idle_ms, timeout_ms).contains(r[k]) && !due_traces(
                        r,
                        now,
                        idle_ms,
                        timeout_ms,
                    ).contains(r[k])
                    &&& (r[k].has_received_root && now - at > idle_ms) ==> due_traces(
                        r,
                        now,
                        idle_ms,
                        timeout_ms,
                    ).contains(r[k])
                }
        }),
{
    lemma_trace_index(s, id);
    let r = record_spec(s, id, t, contains_root, at);
    let k = match trace_index(s, id) {
        Some(i) => i,
        None => s.len() as int,
    };
    assert(r[k].trace_id == id);
    assert(r[k].last_at == at);
    assert(r[k].first_at == first_payload_at(s, id, at));
    assert(r[k].payloads.last() == t);
    lemma_take_due_partitions(r, now, idle_ms, timeout_ms);
    assert(r.contains(r[k]));
    if now - at <= idle_ms && elapsed(now, first_payload_at(s, id, at)) <= timeout_ms {
        assert(!is_due(r[k], now, idle_ms, timeout_ms));
        let ds = due_traces(r, now, idle_ms, timeout_ms);
        if ds.contains(r[k]) {
            let j = choose|j: int| 0 <= j < ds.len() && ds[j] == r[k];
            assert(is_due(ds[j], now, idle_ms, timeout_ms));
        }
    }
    if r[k].has_received_root && now - at > idle_ms {
        assert(is_due(r[k], now, idle_ms, timeout_ms));
        let ps = pending_traces(r, now, idle_ms, timeout_ms);
        if ps.contains(r[k]) {
            let j = choose|j: int| 0 <= j < ps.len() && ps[j] == r[k];
            assert(!is_due(ps[j], now, idle_ms, timeout_ms));
        }
    }
    assert(0 <= k < r.len() && r[k].trace_id == id && r[k].payloads.last() == t);
}

/// Milliseconds from `then` to `now`, zero when `now` is earlier (as
/// `Instant::duration_since` saturates).
pub fn elapsed_ms(now: u64, then: u64) -> (r: u64)
    ensures
        r == elapsed(now, then),
{
    if now >= then {
        now - then
    } else {
        0
    }
}

/// The traces that stay are a subsequence of the buffer, so their ids stay
/// distinct.
proof fn lemma_pending_sub(s: Seq<TraceState>, now: u64, idle_ms: u64, timeout_ms: u64)
    requires
        distinct_ids(s),
    ensures
        distinct_ids(pending_traces(s, now, idle_ms, timeout_ms)),
        forall|j: int|
            0 <= j < pending_traces(s, now, idle_ms, timeout_ms).len() ==> s.contains(
                #[trigger] pending_traces(s, now, idle_ms, timeout_ms)[j],
            ),
    decreases s.len(),
{
    if s.len() > 0 {
        let d = s.drop_last();
        assert(distinct_ids(d)) by {
            assert forall|a: int, b: int| 0 <= a < b < d.len() implies (#[trigger] d[a]).trace_id
                != (#[trigger] d[b]).trace_id by {
                assert(d[a] == s[a] && d[b] == s[b]);
            }
        }
        lemma_pending_sub(d, now, idle_ms, timeout_ms);
        let p = pending_traces(d, now, idle_ms, timeout_ms);
        assert forall|j: int| 0 <= j < p.len() implies s.contains(#[trigger] p[j]) by {
            let x = choose|x: int| 0 <= x < d.len() && d[x] == p[j];
            assert(s[x] == d[x]);
        }
        if !is_due(s.last(), now, idle_ms, timeout_ms) {
            let q = p.push(s.last());
            assert forall|a: int, b: int| 0 <= a < b < q.len() implies (#[trigger] q[a]).trace_id
                != (#[trigger] q[b]).trace_id by {
                if b == q.len() - 1 {
                    let x = choose|x: int| 0 <= x < d.len() && d[x] == p[a];
                    assert(s[x] == d[x]);
                    assert(s[s.len() - 1] == s.last());
                } else {
                    assert(q[a] == p[a] && q[b] == p[b]);
                }
            }
            assert forall|j: int| 0 <= j < q.len() implies s.contains(#[trigger] q[j]) by {
                if j == q.len() - 1 {
                    assert(s[s.len() - 1] == s.last());
                } else {
                    assert(q[j] == p[j]);
                }
            }
        }
    }
}

} // verus!
